//! The page-table model and the per-level walker handles.
//!
//! A process's translation tables are held as plain data: one root table and
//! one flat arena of entries per lower level, each table occupying 512
//! consecutive slots of its arena. A table entry is a raw 64-bit pattern; bit
//! 0 marks it present, and for a non-leaf entry the bits from 12 up give the
//! index of the child table inside the next level's arena.
//!
//! Walking mirrors the hardware walk: a handle per level (root, degenerate
//! extended root, upper, middle, leaf) locates one entry slot, can test it for
//! emptiness or corruption, read or overwrite its raw value, and descend to
//! the next level for a given virtual address. The leaf handle additionally
//! stands for a temporary mapping of its containing table page, which must be
//! released exactly once; the handle is not copyable and only its consuming
//! `release` gives the mapping back.

use vstd::prelude::*;
use vstd::pervasive::VecAdditionalExecFns;

verus! {

/// Number of entry slots in one translation table.
pub const TABLE_ENTRIES: usize = 512;

/// Upper bound on the length of one level's entry arena. Keeps child-table
/// indices far below the range where encoding them in an entry could wrap.
pub const ARENA_CAP: usize = 0x2000_0000;

/// Flag bits the model gives an entry it installs: the present bit plus the
/// bookkeeping bits of the hardware's table-descriptor pattern.
pub const TABLE_FLAGS: u64 = 0x67;

/// Virtual addresses are 48 bits wide; pages are 4096 bytes, so page numbers
/// are 36 bits wide.
pub const VA_LIMIT: u64 = 0x1_0000_0000_0000;

/// One past the largest page number.
pub const PAGE_LIMIT: u64 = 0x10_0000_0000;

/// An entry encodes "not present at all".
pub open spec fn entry_none(v: u64) -> bool {
    v == 0
}

/// An entry carries a valid mapping or child table: its present bit is set.
pub open spec fn entry_present(v: u64) -> bool {
    v & 1 == 1
}

/// An entry's bits are inconsistent with any valid mapping at a non-leaf
/// level: it is neither empty nor marked present. Callers must not descend
/// through such an entry.
pub open spec fn entry_bad(v: u64) -> bool {
    v != 0 && v & 1 != 1
}

/// The child-table index a present non-leaf entry points at.
pub open spec fn entry_child(v: u64) -> u64 {
    v >> 12
}

/// The page number a virtual address falls in.
pub open spec fn page_of_va(va: u64) -> u64 {
    va >> 12
}

/// Root-level slot for a page number: bits 27 to 35.
pub open spec fn pgd_slot(p: u64) -> int {
    ((p >> 27) & 0x1ff) as int
}

/// Upper-level slot for a page number: bits 18 to 26.
pub open spec fn pud_slot(p: u64) -> int {
    ((p >> 18) & 0x1ff) as int
}

/// Middle-level slot for a page number: bits 9 to 17.
pub open spec fn pmd_slot(p: u64) -> int {
    ((p >> 9) & 0x1ff) as int
}

/// Leaf-level slot for a page number: bits 0 to 8.
pub open spec fn pte_slot(p: u64) -> int {
    (p & 0x1ff) as int
}

/// A level's arena holds whole 512-slot tables and stays below the cap.
pub open spec fn arena_wf(a: Seq<u64>) -> bool {
    a.len() % 512 == 0 && a.len() <= ARENA_CAP
}

/// Present entries of an arena point below `count` child tables, and no two
/// of them share a child.
pub open spec fn arena_links_wf(a: Seq<u64>, count: int) -> bool {
    &&& forall|j: int|
        0 <= j < a.len() && entry_present(#[trigger] a[j]) ==> entry_child(a[j]) < count
    &&& forall|j1: int, j2: int|
        0 <= j1 < a.len() && 0 <= j2 < a.len() && j1 != j2 && entry_present(#[trigger] a[j1])
            && entry_present(#[trigger] a[j2]) ==> entry_child(a[j1]) != entry_child(a[j2])
}

/// A process's translation tables: the 512-entry root and one flat arena of
/// entries per lower level. `leaf_maps` counts the temporary mappings of leaf
/// table pages that are currently outstanding.
pub struct PageTables {
    /// The root (top-level) table.
    pub root: Vec<u64>,
    /// Upper-level tables, 512 slots each, laid out back to back.
    pub pud_arena: Vec<u64>,
    /// Middle-level tables, 512 slots each, laid out back to back.
    pub pmd_arena: Vec<u64>,
    /// Leaf tables, 512 slots each, laid out back to back.
    pub pte_arena: Vec<u64>,
    /// Outstanding temporary mappings of leaf table pages.
    pub leaf_maps: u64,
}

impl PageTables {
    /// Number of upper-level tables.
    pub open spec fn pud_table_count(self) -> int {
        self.pud_arena@.len() as int / 512
    }

    /// Number of middle-level tables.
    pub open spec fn pmd_table_count(self) -> int {
        self.pmd_arena@.len() as int / 512
    }

    /// Number of leaf tables.
    pub open spec fn pte_table_count(self) -> int {
        self.pte_arena@.len() as int / 512
    }

    /// Structural well-formedness: every table is whole, every present
    /// non-leaf entry points at an existing child table, and no two entries
    /// of one level share a child. Walking present entries is then always in
    /// bounds, and writing through one slot never changes what another slot's
    /// subtree translates.
    pub open spec fn wf(self) -> bool {
        &&& self.root@.len() == 512
        &&& arena_wf(self.pud_arena@)
        &&& arena_wf(self.pmd_arena@)
        &&& arena_wf(self.pte_arena@)
        &&& arena_links_wf(self.root@, self.pud_table_count())
        &&& arena_links_wf(self.pud_arena@, self.pmd_table_count())
        &&& arena_links_wf(self.pmd_arena@, self.pte_table_count())
    }

    /// The leaf entry the tables hold for page number `p`, if the walk for
    /// `p` runs through present entries all the way to a nonzero leaf.
    pub open spec fn translate_page(self, p: u64) -> Option<u64> {
        let e0 = self.root@[pgd_slot(p)];
        if !entry_present(e0) {
            None
        } else {
            let e1 = self.pud_arena@[entry_child(e0) as int * 512 + pud_slot(p)];
            if !entry_present(e1) {
                None
            } else {
                let e2 = self.pmd_arena@[entry_child(e1) as int * 512 + pmd_slot(p)];
                if !entry_present(e2) {
                    None
                } else {
                    let e3 = self.pte_arena@[entry_child(e2) as int * 512 + pte_slot(p)];
                    if e3 == 0 {
                        None
                    } else {
                        Some(e3)
                    }
                }
            }
        }
    }

    /// Fresh, empty translation tables: nothing is mapped.
    pub fn empty() -> (r: PageTables)
        ensures
            r.wf(),
            r.leaf_maps == 0,
            r.pud_arena@.len() == 0,
            r.pmd_arena@.len() == 0,
            r.pte_arena@.len() == 0,
            forall|p: u64| r.translate_page(p) is None,
            forall|i: int| 0 <= i < 512 ==> r.root@[i] == 0,
    {
        let root = vec![0u64; TABLE_ENTRIES];
        let r = PageTables {
            root,
            pud_arena: Vec::new(),
            pmd_arena: Vec::new(),
            pte_arena: Vec::new(),
            leaf_maps: 0,
        };
        proof {
            lemma_zero_not_present();
            assert forall|p: u64| r.translate_page(p) is None by {
                assert(((p >> 27) & 0x1ff) < 512) by (bit_vector);
            };
        }
        r
    }

    /// Handle on the root-level entry this level's walk step selects for a
    /// virtual address.
    pub fn map_offset(&mut self, va: u64) -> (r: PGD)
        ensures
            *final(self) == *old(self),
            r.index == pgd_slot(page_of_va(va)),
            r.index < 512,
    {
        proof {
            assert((va >> 39) & 0x1ff == ((va >> 12) >> 27) & 0x1ff && (va >> 39) & 0x1ff < 512)
                by (bit_vector);
        }
        PGD { index: ((va >> 39u64) & 0x1ff) as usize }
    }
}

/// An empty entry is not present.
proof fn lemma_zero_not_present()
    by (bit_vector)
    ensures
        0u64 & 1 != 1,
{
}

/// Distinct slots of distinct whole tables have distinct flat positions.
proof fn lemma_flat_unique(t1: int, i1: int, t2: int, i2: int)
    by (nonlinear_arith)
    requires
        0 <= t1,
        0 <= t2,
        0 <= i1 < 512,
        0 <= i2 < 512,
        t1 * 512 + i1 == t2 * 512 + i2,
    ensures
        t1 == t2,
        i1 == i2,
{
}

/// An arena of whole tables starts its next table exactly at its length.
proof fn lemma_table_start(len: int)
    by (nonlinear_arith)
    requires
        len % 512 == 0,
        0 <= len,
    ensures
        (len / 512) * 512 == len,
{
}

/// A page number below the limit is determined by its four level slots.
proof fn lemma_page_from_slots(p: u64, q: u64)
    by (bit_vector)
    requires
        p < 0x10_0000_0000,
        q < 0x10_0000_0000,
        (p >> 27) & 0x1ff == (q >> 27) & 0x1ff,
        (p >> 18) & 0x1ff == (q >> 18) & 0x1ff,
        (p >> 9) & 0x1ff == (q >> 9) & 0x1ff,
        p & 0x1ff == q & 0x1ff,
    ensures
        p == q,
{
}

/// The four level slots of any page number are below 512.
proof fn lemma_slot_bounds(p: u64)
    by (bit_vector)
    ensures
        (p >> 27) & 0x1ff < 512,
        (p >> 18) & 0x1ff < 512,
        (p >> 9) & 0x1ff < 512,
        p & 0x1ff < 512,
{
}

/// Packing a table index into an entry round-trips: the entry is present and
/// its child field reads the index back.
proof fn lemma_pack_entry(t: u64)
    by (bit_vector)
    requires
        t < 0x100000,
    ensures
        ((t << 12) | 0x67) & 1 == 1,
        ((t << 12) | 0x67) >> 12 == t,
{
}

/// Appending whole zeroed tables to an arena keeps its links well formed:
/// the zero entries are not present.
proof fn lemma_extend_zero_links_wf(a: Seq<u64>, a2: Seq<u64>, count: int)
    requires
        arena_links_wf(a, count),
        a2.len() >= a.len(),
        forall|j: int| 0 <= j < a.len() ==> a2[j] == a[j],
        forall|j: int| a.len() <= j < a2.len() ==> a2[j] == 0,
    ensures
        arena_links_wf(a2, count),
{
    lemma_zero_not_present();
    assert forall|j: int|
        0 <= j < a2.len() && entry_present(#[trigger] a2[j]) implies entry_child(a2[j])
        < count by {
        assert(j < a.len() && a2[j] == a[j]);
    };
    assert forall|j1: int, j2: int|
        0 <= j1 < a2.len() && 0 <= j2 < a2.len() && j1 != j2 && entry_present(#[trigger] a2[j1])
            && entry_present(#[trigger] a2[j2]) implies entry_child(a2[j1]) != entry_child(
        a2[j2],
    ) by {
        assert(j1 < a.len() && a2[j1] == a[j1]);
        assert(j2 < a.len() && a2[j2] == a[j2]);
    };
}

/// Appends one zeroed 512-slot table to an arena.
fn grow_arena(a: &mut Vec<u64>)
    requires
        old(a)@.len() + 512 <= 0x2000_0000,
    ensures
        final(a)@.len() == old(a)@.len() + 512,
        forall|j: int| 0 <= j < old(a)@.len() ==> final(a)@[j] == old(a)@[j],
        forall|j: int| old(a)@.len() <= j < final(a)@.len() ==> final(a)@[j] == 0,
{
    let mut i: usize = 0;
    while i < 512
        invariant
            i <= 512,
            a@.len() == old(a)@.len() + i,
            forall|j: int| 0 <= j < old(a)@.len() ==> a@[j] == old(a)@[j],
            forall|j: int| old(a)@.len() <= j < a@.len() ==> a@[j] == 0,
        decreases 512 - i,
    {
        a.push(0u64);
        i += 1;
    }
}

/// Handle on one root-level (page global directory) entry slot.
#[derive(Clone, Copy)]
pub struct PGD {
    /// Slot inside the root table.
    pub index: usize,
}

impl PGD {
    /// True when this entry encodes "not present".
    pub fn is_none(&self, pt: &PageTables) -> (r: bool)
        requires
            pt.wf(),
            self.index < 512,
        ensures
            r == entry_none(pt.root@[self.index as int]),
    {
        pt.root[self.index] == 0
    }

    /// True when this entry is inconsistent with any valid mapping; do not
    /// descend through it.
    pub fn is_bad(&self, pt: &PageTables) -> (r: bool)
        requires
            pt.wf(),
            self.index < 512,
        ensures
            r == entry_bad(pt.root@[self.index as int]),
    {
        let v = pt.root[self.index];
        v != 0 && (v & 1) != 1
    }

    /// The raw bit pattern of this entry.
    pub fn value(&self, pt: &PageTables) -> (r: u64)
        requires
            pt.wf(),
            self.index < 512,
        ensures
            r == pt.root@[self.index as int],
    {
        pt.root[self.index]
    }

    /// Installs a new raw pattern in this entry. The caller must hand a
    /// pattern that keeps the tables walkable (empty, or present and pointing
    /// at an existing upper table no other root entry claims); translation-
    /// cache invalidation is the caller's business, as on real hardware.
    pub fn set_value(&mut self, pt: &mut PageTables, value: u64)
        requires
            old(pt).wf(),
            old(self).index < 512,
            root_value_ok(*old(pt), old(self).index as int, value),
        ensures
            *final(self) == *old(self),
            final(pt).wf(),
            final(pt).root@ == old(pt).root@.update(old(self).index as int, value),
            final(pt).pud_arena@ == old(pt).pud_arena@,
            final(pt).pmd_arena@ == old(pt).pmd_arena@,
            final(pt).pte_arena@ == old(pt).pte_arena@,
            final(pt).leaf_maps == old(pt).leaf_maps,
    {
        pt.root.set(self.index, value);
        proof {
            lemma_update_links_wf(
                old(pt).root@,
                old(pt).pud_table_count(),
                self.index as int,
                value,
            );
        }
    }

    /// Descends to the next level. The extended root level is absent in this
    /// configuration, so this is the identity step: the same entry slot,
    /// retyped as the degenerate next-level handle.
    pub fn map_offset(&self, _va: u64) -> (r: P4D)
        ensures
            r.index == self.index,
    {
        P4D { index: self.index }
    }
}

/// A root entry may be overwritten with `value` without making the tables
/// unwalkable: it is either empty, or present, in range, and no other root
/// entry already points at the same upper table.
pub open spec fn root_value_ok(pt: PageTables, slot: int, value: u64) -> bool {
    ||| value == 0
    ||| {
        &&& entry_present(value)
        &&& entry_child(value) < pt.pud_table_count()
        &&& forall|j: int|
            0 <= j < 512 && j != slot && entry_present(#[trigger] pt.root@[j]) ==> entry_child(
                pt.root@[j],
            ) != entry_child(value)
    }
}

/// Handle on the extended-root level. The build configuration modeled here
/// has no extended root, so the handle is a degenerate passthrough: it reads
/// the same root entry its parent handle read, and installing a value through
/// it is discarded, exactly as the folded-away level behaves.
#[derive(Clone, Copy)]
pub struct P4D {
    /// Slot inside the root table.
    pub index: usize,
}

impl P4D {
    /// True when the underlying root entry encodes "not present".
    pub fn is_none(&self, pt: &PageTables) -> (r: bool)
        requires
            pt.wf(),
            self.index < 512,
        ensures
            r == entry_none(pt.root@[self.index as int]),
    {
        pt.root[self.index] == 0
    }

    /// True when the underlying root entry is inconsistent with any valid
    /// mapping; the degenerate level reuses the root level's check.
    pub fn is_bad(&self, pt: &PageTables) -> (r: bool)
        requires
            pt.wf(),
            self.index < 512,
        ensures
            r == entry_bad(pt.root@[self.index as int]),
    {
        let v = pt.root[self.index];
        v != 0 && (v & 1) != 1
    }

    /// The raw bit pattern of the underlying root entry.
    pub fn value(&self, pt: &PageTables) -> (r: u64)
        requires
            pt.wf(),
            self.index < 512,
        ensures
            r == pt.root@[self.index as int],
    {
        pt.root[self.index]
    }

    /// With the extended root compiled out there is no separate entry at this
    /// level to write, so the installed value is discarded.
    pub fn set_value(&mut self, _value: u64)
        ensures
            *final(self) == *old(self),
    {
    }

    /// Descends to the upper level for a virtual address, through the present
    /// root entry this degenerate handle stands on.
    pub fn map_offset(&self, pt: &PageTables, va: u64) -> (r: PUD)
        requires
            pt.wf(),
            self.index < 512,
            entry_present(pt.root@[self.index as int]),
        ensures
            r.table == entry_child(pt.root@[self.index as int]),
            r.table < pt.pud_table_count(),
            r.index == pud_slot(page_of_va(va)),
            r.index < 512,
    {
        proof {
            assert((va >> 30) & 0x1ff == ((va >> 12) >> 18) & 0x1ff && (va >> 30) & 0x1ff < 512)
                by (bit_vector);
            assert(pt.pud_table_count() <= 0x100000);
        }
        PUD { table: (pt.root[self.index] >> 12u64) as usize, index: ((va >> 30u64) & 0x1ff) as usize }
    }
}

/// Overwriting one slot keeps an arena's links well formed, provided the new
/// value is empty or points in range at a child no other entry claims.
proof fn lemma_update_links_wf(a: Seq<u64>, count: int, slot: int, value: u64)
    requires
        arena_links_wf(a, count),
        0 <= slot < a.len(),
        value == 0 || (entry_present(value) && entry_child(value) < count && forall|j: int|
            0 <= j < a.len() && j != slot && entry_present(#[trigger] a[j]) ==> entry_child(a[j])
                != entry_child(value)),
    ensures
        arena_links_wf(a.update(slot, value), count),
{
    lemma_zero_not_present();
    let a2 = a.update(slot, value);
    assert forall|j: int|
        0 <= j < a2.len() && entry_present(#[trigger] a2[j]) implies entry_child(a2[j])
        < count by {
        if j != slot {
            assert(a2[j] == a[j]);
        }
    };
    assert forall|j1: int, j2: int|
        0 <= j1 < a2.len() && 0 <= j2 < a2.len() && j1 != j2 && entry_present(#[trigger] a2[j1])
            && entry_present(#[trigger] a2[j2]) implies entry_child(a2[j1]) != entry_child(
        a2[j2],
    ) by {
        if j1 == slot {
            assert(a2[j2] == a[j2]);
        } else if j2 == slot {
            assert(a2[j1] == a[j1]);
        } else {
            assert(a2[j1] == a[j1] && a2[j2] == a[j2]);
        }
    };
}

/// A whole table fits before the end of its arena: slot `t * 512 + i` of a
/// table below the table count is inside the arena.
proof fn lemma_flat_index_bound(t: int, i: int, len: int)
    requires
        len % 512 == 0,
        0 <= t < len / 512,
        0 <= i < 512,
    ensures
        0 <= t * 512 + i < len,
{
    assert(len % 512 == 0 && 0 <= t < len / 512 && 0 <= i < 512 ==> 0 <= t * 512 + i < len)
        by (nonlinear_arith);
}

/// Handle on one upper-level (page upper directory) entry slot.
#[derive(Clone, Copy)]
pub struct PUD {
    /// Which upper-level table, as an index into the arena.
    pub table: usize,
    /// Slot inside that table.
    pub index: usize,
}

impl PUD {
    /// The flat arena position of the entry this handle stands on.
    pub open spec fn slot(self) -> int {
        self.table as int * 512 + self.index as int
    }

    /// The handle locates a real slot of the upper-level arena.
    pub open spec fn in_bounds(self, pt: PageTables) -> bool {
        self.table < pt.pud_table_count() && self.index < 512
    }

    /// True when this entry encodes "not present".
    pub fn is_none(&self, pt: &PageTables) -> (r: bool)
        requires
            pt.wf(),
            self.in_bounds(*pt),
        ensures
            r == entry_none(pt.pud_arena@[self.slot()]),
    {
        proof { lemma_flat_index_bound(self.table as int, self.index as int, pt.pud_arena@.len() as int); }
        pt.pud_arena[self.table * 512 + self.index] == 0
    }

    /// True when this entry is inconsistent with any valid mapping; do not
    /// descend through it.
    pub fn is_bad(&self, pt: &PageTables) -> (r: bool)
        requires
            pt.wf(),
            self.in_bounds(*pt),
        ensures
            r == entry_bad(pt.pud_arena@[self.slot()]),
    {
        proof { lemma_flat_index_bound(self.table as int, self.index as int, pt.pud_arena@.len() as int); }
        let v = pt.pud_arena[self.table * 512 + self.index];
        v != 0 && (v & 1) != 1
    }

    /// The raw bit pattern of this entry.
    pub fn value(&self, pt: &PageTables) -> (r: u64)
        requires
            pt.wf(),
            self.in_bounds(*pt),
        ensures
            r == pt.pud_arena@[self.slot()],
    {
        proof { lemma_flat_index_bound(self.table as int, self.index as int, pt.pud_arena@.len() as int); }
        pt.pud_arena[self.table * 512 + self.index]
    }

    /// Installs a new raw pattern in this entry, under the same walkability
    /// conditions as at the root level.
    pub fn set_value(&mut self, pt: &mut PageTables, value: u64)
        requires
            old(pt).wf(),
            old(self).in_bounds(*old(pt)),
            pud_value_ok(*old(pt), old(self).slot(), value),
        ensures
            *final(self) == *old(self),
            final(pt).wf(),
            final(pt).pud_arena@ == old(pt).pud_arena@.update(old(self).slot(), value),
            final(pt).root@ == old(pt).root@,
            final(pt).pmd_arena@ == old(pt).pmd_arena@,
            final(pt).pte_arena@ == old(pt).pte_arena@,
            final(pt).leaf_maps == old(pt).leaf_maps,
    {
        proof { lemma_flat_index_bound(self.table as int, self.index as int, pt.pud_arena@.len() as int); }
        pt.pud_arena.set(self.table * 512 + self.index, value);
        proof {
            lemma_update_links_wf(
                old(pt).pud_arena@,
                old(pt).pmd_table_count(),
                self.slot(),
                value,
            );
        }
    }

    /// Descends to the middle level for a virtual address, through this
    /// present entry.
    pub fn map_offset(&self, pt: &PageTables, va: u64) -> (r: PMD)
        requires
            pt.wf(),
            self.in_bounds(*pt),
            entry_present(pt.pud_arena@[self.slot()]),
        ensures
            r.table == entry_child(pt.pud_arena@[self.slot()]),
            r.table < pt.pmd_table_count(),
            r.index == pmd_slot(page_of_va(va)),
            r.index < 512,
    {
        proof {
            lemma_flat_index_bound(self.table as int, self.index as int, pt.pud_arena@.len() as int);
            assert((va >> 21) & 0x1ff == ((va >> 12) >> 9) & 0x1ff && (va >> 21) & 0x1ff < 512)
                by (bit_vector);
            assert(pt.pmd_table_count() <= 0x100000);
        }
        PMD {
            table: (pt.pud_arena[self.table * 512 + self.index] >> 12u64) as usize,
            index: ((va >> 21u64) & 0x1ff) as usize,
        }
    }
}

/// An upper-level entry may be overwritten with `value` without making the
/// tables unwalkable.
pub open spec fn pud_value_ok(pt: PageTables, slot: int, value: u64) -> bool {
    ||| value == 0
    ||| {
        &&& entry_present(value)
        &&& entry_child(value) < pt.pmd_table_count()
        &&& forall|j: int|
            0 <= j < pt.pud_arena@.len() && j != slot && entry_present(#[trigger] pt.pud_arena@[j])
                ==> entry_child(pt.pud_arena@[j]) != entry_child(value)
    }
}

/// Handle on one middle-level (page middle directory) entry slot.
#[derive(Clone, Copy)]
pub struct PMD {
    /// Which middle-level table, as an index into the arena.
    pub table: usize,
    /// Slot inside that table.
    pub index: usize,
}

impl PMD {
    /// The flat arena position of the entry this handle stands on.
    pub open spec fn slot(self) -> int {
        self.table as int * 512 + self.index as int
    }

    /// The handle locates a real slot of the middle-level arena.
    pub open spec fn in_bounds(self, pt: PageTables) -> bool {
        self.table < pt.pmd_table_count() && self.index < 512
    }

    /// True when this entry encodes "not present".
    pub fn is_none(&self, pt: &PageTables) -> (r: bool)
        requires
            pt.wf(),
            self.in_bounds(*pt),
        ensures
            r == entry_none(pt.pmd_arena@[self.slot()]),
    {
        proof { lemma_flat_index_bound(self.table as int, self.index as int, pt.pmd_arena@.len() as int); }
        pt.pmd_arena[self.table * 512 + self.index] == 0
    }

    /// True when this entry is inconsistent with any valid mapping; do not
    /// descend through it.
    pub fn is_bad(&self, pt: &PageTables) -> (r: bool)
        requires
            pt.wf(),
            self.in_bounds(*pt),
        ensures
            r == entry_bad(pt.pmd_arena@[self.slot()]),
    {
        proof { lemma_flat_index_bound(self.table as int, self.index as int, pt.pmd_arena@.len() as int); }
        let v = pt.pmd_arena[self.table * 512 + self.index];
        v != 0 && (v & 1) != 1
    }

    /// The raw bit pattern of this entry.
    pub fn value(&self, pt: &PageTables) -> (r: u64)
        requires
            pt.wf(),
            self.in_bounds(*pt),
        ensures
            r == pt.pmd_arena@[self.slot()],
    {
        proof { lemma_flat_index_bound(self.table as int, self.index as int, pt.pmd_arena@.len() as int); }
        pt.pmd_arena[self.table * 512 + self.index]
    }

    /// Installs a new raw pattern in this entry, under the same walkability
    /// conditions as at the root level.
    pub fn set_value(&mut self, pt: &mut PageTables, value: u64)
        requires
            old(pt).wf(),
            old(self).in_bounds(*old(pt)),
            pmd_value_ok(*old(pt), old(self).slot(), value),
        ensures
            *final(self) == *old(self),
            final(pt).wf(),
            final(pt).pmd_arena@ == old(pt).pmd_arena@.update(old(self).slot(), value),
            final(pt).root@ == old(pt).root@,
            final(pt).pud_arena@ == old(pt).pud_arena@,
            final(pt).pte_arena@ == old(pt).pte_arena@,
            final(pt).leaf_maps == old(pt).leaf_maps,
    {
        proof { lemma_flat_index_bound(self.table as int, self.index as int, pt.pmd_arena@.len() as int); }
        pt.pmd_arena.set(self.table * 512 + self.index, value);
        proof {
            lemma_update_links_wf(
                old(pt).pmd_arena@,
                old(pt).pte_table_count(),
                self.slot(),
                value,
            );
        }
    }

    /// Descends to the leaf level for a virtual address, through this present
    /// entry. Establishes a temporary mapping of the containing leaf table
    /// page; the returned handle must be released exactly once to give it
    /// back.
    pub fn map_offset(&self, pt: &mut PageTables, va: u64) -> (r: PTE)
        requires
            old(pt).wf(),
            self.in_bounds(*old(pt)),
            entry_present(old(pt).pmd_arena@[self.slot()]),
            old(pt).leaf_maps < u64::MAX,
        ensures
            final(pt).wf(),
            final(pt).root@ == old(pt).root@,
            final(pt).pud_arena@ == old(pt).pud_arena@,
            final(pt).pmd_arena@ == old(pt).pmd_arena@,
            final(pt).pte_arena@ == old(pt).pte_arena@,
            final(pt).leaf_maps == old(pt).leaf_maps + 1,
            r.table == entry_child(old(pt).pmd_arena@[self.slot()]),
            r.table < final(pt).pte_table_count(),
            r.index == pte_slot(page_of_va(va)),
            r.index < 512,
    {
        proof {
            lemma_flat_index_bound(self.table as int, self.index as int, pt.pmd_arena@.len() as int);
            assert((va >> 12) & 0x1ff < 512) by (bit_vector);
            assert(pt.pte_table_count() <= 0x100000);
        }
        let table = (pt.pmd_arena[self.table * 512 + self.index] >> 12u64) as usize;
        let index = ((va >> 12u64) & 0x1ff) as usize;
        pt.leaf_maps = pt.leaf_maps + 1;
        PTE { table, index }
    }
}

/// A middle-level entry may be overwritten with `value` without making the
/// tables unwalkable.
pub open spec fn pmd_value_ok(pt: PageTables, slot: int, value: u64) -> bool {
    ||| value == 0
    ||| {
        &&& entry_present(value)
        &&& entry_child(value) < pt.pte_table_count()
        &&& forall|j: int|
            0 <= j < pt.pmd_arena@.len() && j != slot && entry_present(#[trigger] pt.pmd_arena@[j])
                ==> entry_child(pt.pmd_arena@[j]) != entry_child(value)
    }
}

/// Handle on one leaf (page table entry) slot. It owns the temporary mapping
/// of its containing leaf table page: the type is not copyable, and the one
/// way to let go of it is the consuming [`PTE::release`], so the mapping is
/// given back exactly once on every path.
pub struct PTE {
    /// Which leaf table, as an index into the arena.
    pub table: usize,
    /// Slot inside that table.
    pub index: usize,
}

impl PTE {
    /// The flat arena position of the entry this handle stands on.
    pub open spec fn slot(self) -> int {
        self.table as int * 512 + self.index as int
    }

    /// The handle locates a real slot of the leaf arena.
    pub open spec fn in_bounds(self, pt: PageTables) -> bool {
        self.table < pt.pte_table_count() && self.index < 512
    }

    /// True when this entry encodes "not present". The leaf level has no
    /// "bad" predicate: its value space is platform-specific.
    pub fn is_none(&self, pt: &PageTables) -> (r: bool)
        requires
            pt.wf(),
            self.in_bounds(*pt),
        ensures
            r == entry_none(pt.pte_arena@[self.slot()]),
    {
        proof { lemma_flat_index_bound(self.table as int, self.index as int, pt.pte_arena@.len() as int); }
        pt.pte_arena[self.table * 512 + self.index] == 0
    }

    /// The raw bit pattern of this entry.
    pub fn value(&self, pt: &PageTables) -> (r: u64)
        requires
            pt.wf(),
            self.in_bounds(*pt),
        ensures
            r == pt.pte_arena@[self.slot()],
    {
        proof { lemma_flat_index_bound(self.table as int, self.index as int, pt.pte_arena@.len() as int); }
        pt.pte_arena[self.table * 512 + self.index]
    }

    /// Installs a new raw pattern in this leaf entry. Any pattern is legal
    /// here: leaf values are opaque to the walker.
    pub fn set_value(&mut self, pt: &mut PageTables, value: u64)
        requires
            old(pt).wf(),
            old(self).in_bounds(*old(pt)),
        ensures
            *final(self) == *old(self),
            final(pt).wf(),
            final(pt).pte_arena@ == old(pt).pte_arena@.update(old(self).slot(), value),
            final(pt).root@ == old(pt).root@,
            final(pt).pud_arena@ == old(pt).pud_arena@,
            final(pt).pmd_arena@ == old(pt).pmd_arena@,
            final(pt).leaf_maps == old(pt).leaf_maps,
    {
        proof { lemma_flat_index_bound(self.table as int, self.index as int, pt.pte_arena@.len() as int); }
        pt.pte_arena.set(self.table * 512 + self.index, value);
    }

    /// Gives back the temporary mapping of this handle's leaf table page.
    /// Consumes the handle, so release happens at most once per handle; a
    /// walk that acquired a leaf handle must end in exactly one call here.
    pub fn release(self, pt: &mut PageTables)
        requires
            old(pt).leaf_maps >= 1,
        ensures
            final(pt).root@ == old(pt).root@,
            final(pt).pud_arena@ == old(pt).pud_arena@,
            final(pt).pmd_arena@ == old(pt).pmd_arena@,
            final(pt).pte_arena@ == old(pt).pte_arena@,
            final(pt).leaf_maps == old(pt).leaf_maps - 1,
    {
        pt.leaf_maps = pt.leaf_maps - 1;
    }
}

impl PageTables {
    /// There is room to install `n` more pages: each page may demand one new
    /// table at each of the three lower levels.
    pub open spec fn headroom(self, n: int) -> bool {
        &&& self.pud_arena@.len() + 512 * n <= 0x2000_0000
        &&& self.pmd_arena@.len() + 512 * n <= 0x2000_0000
        &&& self.pte_arena@.len() + 512 * n <= 0x2000_0000
    }

    /// Makes the root entry at `slot0` point at an upper table, installing a
    /// fresh empty one if the entry was not present. Translation of every
    /// page is left as it was.
    fn ensure_root_child(&mut self, slot0: usize) -> (t1: usize)
        requires
            old(self).wf(),
            slot0 < 512,
            old(self).pud_arena@.len() + 512 <= 0x2000_0000,
        ensures
            final(self).wf(),
            final(self).leaf_maps == old(self).leaf_maps,
            final(self).pmd_arena@ == old(self).pmd_arena@,
            final(self).pte_arena@ == old(self).pte_arena@,
            final(self).pud_arena@.len() <= old(self).pud_arena@.len() + 512,
            forall|j: int|
                0 <= j < old(self).pud_arena@.len() ==> final(self).pud_arena@[j] == old(self).pud_arena@[j],
            forall|i: int| 0 <= i < 512 && i != slot0 ==> final(self).root@[i] == old(self).root@[i],
            entry_present(final(self).root@[slot0 as int]),
            entry_child(final(self).root@[slot0 as int]) == t1,
            t1 < final(self).pud_table_count(),
            forall|q: u64|
                #[trigger] final(self).translate_page(q) == old(self).translate_page(q),
    {
        let e = self.root[slot0];
        if e & 1 == 1 {
            let t1 = (e >> 12u64) as usize;
            proof {
                assert(entry_child(e) < old(self).pud_table_count());
                assert(old(self).pud_table_count() <= 0x100000);
            }
            t1
        } else {
            let ghost pt0 = *self;
            let t1 = self.pud_arena.len() / 512;
            grow_arena(&mut self.pud_arena);
            let entry = ((t1 as u64) << 12u64) | TABLE_FLAGS;
            self.root.set(slot0, entry);
            proof {
                let s0 = slot0 as int;
                let old_len = pt0.pud_arena@.len() as int;
                lemma_table_start(old_len);
                assert(t1 as int == old_len / 512);
                assert(t1 < 0x100000);
                lemma_pack_entry(t1 as u64);
                assert(entry_present(entry) && entry_child(entry) == t1);
                // The old root links stay well formed against the grown count,
                // and the fresh child is past every old child.
                assert(self.pud_table_count() == pt0.pud_table_count() + 1) by {
                    assert((old_len + 512) / 512 == old_len / 512 + 1) by (nonlinear_arith)
                        requires old_len % 512 == 0 && 0 <= old_len;
                };
                lemma_update_links_wf(pt0.root@, self.pud_table_count(), s0, entry);
                lemma_extend_zero_links_wf(
                    pt0.pud_arena@,
                    self.pud_arena@,
                    pt0.pmd_table_count(),
                );
                assert(self.wf());
                assert forall|q: u64|
                    #[trigger] self.translate_page(q) == pt0.translate_page(q) by {
                    lemma_slot_bounds(q);
                    if pgd_slot(q) == s0 {
                        // Previously nothing to descend through; now a fresh
                        // empty table: still nothing mapped.
                        assert(!entry_present(pt0.root@[s0]));
                        assert(self.pud_arena@[old_len + pud_slot(q)] == 0);
                        lemma_zero_not_present();
                        assert(t1 * 512 + pud_slot(q) == old_len + pud_slot(q));
                    } else {
                        let e0 = pt0.root@[pgd_slot(q)];
                        assert(self.root@[pgd_slot(q)] == e0);
                        if entry_present(e0) {
                            lemma_flat_index_bound(
                                entry_child(e0) as int,
                                pud_slot(q),
                                old_len,
                            );
                        }
                    }
                };
            }
            t1
        }
    }

    /// Makes the upper-level entry at table `t1`, slot `slot1` point at a
    /// middle table, installing a fresh empty one if the entry was not
    /// present. Translation of every page is left as it was.
    fn ensure_pud_child(&mut self, t1: usize, slot1: usize) -> (t2: usize)
        requires
            old(self).wf(),
            t1 < old(self).pud_table_count(),
            slot1 < 512,
            old(self).pmd_arena@.len() + 512 <= 0x2000_0000,
        ensures
            final(self).wf(),
            final(self).leaf_maps == old(self).leaf_maps,
            final(self).root@ == old(self).root@,
            final(self).pte_arena@ == old(self).pte_arena@,
            final(self).pud_arena@.len() == old(self).pud_arena@.len(),
            final(self).pmd_arena@.len() <= old(self).pmd_arena@.len() + 512,
            forall|j: int|
                0 <= j < old(self).pud_arena@.len() && j != t1 * 512 + slot1 ==> final(self).pud_arena@[j] == old(self).pud_arena@[j],
            forall|j: int|
                0 <= j < old(self).pmd_arena@.len() ==> final(self).pmd_arena@[j] == old(self).pmd_arena@[j],
            entry_present(final(self).pud_arena@[t1 as int * 512 + slot1 as int]),
            entry_child(final(self).pud_arena@[t1 as int * 512 + slot1 as int]) == t2,
            t2 < final(self).pmd_table_count(),
            forall|q: u64|
                #[trigger] final(self).translate_page(q) == old(self).translate_page(q),
    {
        proof {
            lemma_flat_index_bound(t1 as int, slot1 as int, old(self).pud_arena@.len() as int);
        }
        let flat1 = t1 * 512 + slot1;
        let e = self.pud_arena[flat1];
        if e & 1 == 1 {
            let t2 = (e >> 12u64) as usize;
            proof {
                assert(entry_child(e) < old(self).pmd_table_count());
                assert(old(self).pmd_table_count() <= 0x100000);
            }
            t2
        } else {
            let ghost pt0 = *self;
            let t2 = self.pmd_arena.len() / 512;
            grow_arena(&mut self.pmd_arena);
            let entry = ((t2 as u64) << 12u64) | TABLE_FLAGS;
            self.pud_arena.set(flat1, entry);
            proof {
                let f1 = flat1 as int;
                let old_len = pt0.pmd_arena@.len() as int;
                lemma_table_start(old_len);
                assert(t2 < 0x100000);
                lemma_pack_entry(t2 as u64);
                assert(entry_present(entry) && entry_child(entry) == t2);
                assert(self.pmd_table_count() == pt0.pmd_table_count() + 1) by {
                    assert((old_len + 512) / 512 == old_len / 512 + 1) by (nonlinear_arith)
                        requires old_len % 512 == 0 && 0 <= old_len;
                };
                lemma_update_links_wf(pt0.pud_arena@, self.pmd_table_count(), f1, entry);
                lemma_extend_zero_links_wf(
                    pt0.pmd_arena@,
                    self.pmd_arena@,
                    pt0.pte_table_count(),
                );
                assert(arena_links_wf(self.root@, self.pud_table_count()));
                assert(self.wf());
                assert forall|q: u64|
                    #[trigger] self.translate_page(q) == pt0.translate_page(q) by {
                    lemma_slot_bounds(q);
                    let e0 = pt0.root@[pgd_slot(q)];
                    if entry_present(e0) {
                        let c = entry_child(e0) as int;
                        lemma_flat_index_bound(c, pud_slot(q), pt0.pud_arena@.len() as int);
                        let pos1 = c * 512 + pud_slot(q);
                        if pos1 == f1 {
                            // The entry this walk step reads was just
                            // installed: it points at the fresh empty middle
                            // table, so the walk still finds nothing, as it
                            // found nothing before.
                            assert(!entry_present(pt0.pud_arena@[f1]));
                            assert(self.pmd_arena@[old_len + pmd_slot(q)] == 0);
                            lemma_zero_not_present();
                            assert(t2 * 512 + pmd_slot(q) == old_len + pmd_slot(q));
                        } else {
                            let e1 = pt0.pud_arena@[pos1];
                            assert(self.pud_arena@[pos1] == e1);
                            if entry_present(e1) {
                                lemma_flat_index_bound(
                                    entry_child(e1) as int,
                                    pmd_slot(q),
                                    old_len,
                                );
                            }
                        }
                    }
                };
            }
            t2
        }
    }

    /// Makes the middle-level entry at table `t2`, slot `slot2` point at a
    /// leaf table, installing a fresh empty one if the entry was not present.
    /// Translation of every page is left as it was.
    fn ensure_pmd_child(&mut self, t2: usize, slot2: usize) -> (t3: usize)
        requires
            old(self).wf(),
            t2 < old(self).pmd_table_count(),
            slot2 < 512,
            old(self).pte_arena@.len() + 512 <= 0x2000_0000,
        ensures
            final(self).wf(),
            final(self).leaf_maps == old(self).leaf_maps,
            final(self).root@ == old(self).root@,
            final(self).pud_arena@ == old(self).pud_arena@,
            final(self).pmd_arena@.len() == old(self).pmd_arena@.len(),
            final(self).pte_arena@.len() <= old(self).pte_arena@.len() + 512,
            forall|j: int|
                0 <= j < old(self).pmd_arena@.len() && j != t2 * 512 + slot2 ==> final(self).pmd_arena@[j] == old(self).pmd_arena@[j],
            forall|j: int|
                0 <= j < old(self).pte_arena@.len() ==> final(self).pte_arena@[j] == old(self).pte_arena@[j],
            entry_present(final(self).pmd_arena@[t2 as int * 512 + slot2 as int]),
            entry_child(final(self).pmd_arena@[t2 as int * 512 + slot2 as int]) == t3,
            t3 < final(self).pte_table_count(),
            forall|q: u64|
                #[trigger] final(self).translate_page(q) == old(self).translate_page(q),
    {
        proof {
            lemma_flat_index_bound(t2 as int, slot2 as int, old(self).pmd_arena@.len() as int);
        }
        let flat2 = t2 * 512 + slot2;
        let e = self.pmd_arena[flat2];
        if e & 1 == 1 {
            let t3 = (e >> 12u64) as usize;
            proof {
                assert(entry_child(e) < old(self).pte_table_count());
                assert(old(self).pte_table_count() <= 0x100000);
            }
            t3
        } else {
            let ghost pt0 = *self;
            let t3 = self.pte_arena.len() / 512;
            grow_arena(&mut self.pte_arena);
            let entry = ((t3 as u64) << 12u64) | TABLE_FLAGS;
            self.pmd_arena.set(flat2, entry);
            proof {
                let f2 = flat2 as int;
                let old_len = pt0.pte_arena@.len() as int;
                lemma_table_start(old_len);
                assert(t3 < 0x100000);
                lemma_pack_entry(t3 as u64);
                assert(entry_present(entry) && entry_child(entry) == t3);
                assert(self.pte_table_count() == pt0.pte_table_count() + 1) by {
                    assert((old_len + 512) / 512 == old_len / 512 + 1) by (nonlinear_arith)
                        requires old_len % 512 == 0 && 0 <= old_len;
                };
                lemma_update_links_wf(pt0.pmd_arena@, self.pte_table_count(), f2, entry);
                assert(self.wf());
                assert forall|q: u64|
                    #[trigger] self.translate_page(q) == pt0.translate_page(q) by {
                    lemma_slot_bounds(q);
                    let e0 = pt0.root@[pgd_slot(q)];
                    if entry_present(e0) {
                        let c = entry_child(e0) as int;
                        lemma_flat_index_bound(c, pud_slot(q), pt0.pud_arena@.len() as int);
                        let e1 = pt0.pud_arena@[c * 512 + pud_slot(q)];
                        if entry_present(e1) {
                            let c1 = entry_child(e1) as int;
                            lemma_flat_index_bound(c1, pmd_slot(q), pt0.pmd_arena@.len() as int);
                            let pos2 = c1 * 512 + pmd_slot(q);
                            if pos2 == f2 {
                                // The freshly linked leaf table is empty, so
                                // the walk still finds nothing here.
                                assert(!entry_present(pt0.pmd_arena@[f2]));
                                assert(self.pte_arena@[old_len + pte_slot(q)] == 0);
                                assert(t3 * 512 + pte_slot(q) == old_len + pte_slot(q));
                            } else {
                                let e2 = pt0.pmd_arena@[pos2];
                                assert(self.pmd_arena@[pos2] == e2);
                                if entry_present(e2) {
                                    lemma_flat_index_bound(
                                        entry_child(e2) as int,
                                        pte_slot(q),
                                        old_len,
                                    );
                                }
                            }
                        }
                    }
                };
            }
            t3
        }
    }

    /// Walks the tables for virtual address `va` through the per-level
    /// handles, exactly as a caller of the walker would: descend while each
    /// entry is present, stop on an empty or corrupt entry, and release the
    /// temporary leaf mapping on every path out. Returns the leaf entry when
    /// the whole path is mapped.
    pub fn translate_address(&mut self, va: u64) -> (r: Option<u64>)
        requires
            old(self).wf(),
            old(self).leaf_maps < u64::MAX,
        ensures
            final(self).root@ == old(self).root@,
            final(self).pud_arena@ == old(self).pud_arena@,
            final(self).pmd_arena@ == old(self).pmd_arena@,
            final(self).pte_arena@ == old(self).pte_arena@,
            final(self).leaf_maps == old(self).leaf_maps,
            r == old(self).translate_page(page_of_va(va)),
    {
        proof {
            lemma_zero_not_present();
        }
        let pgd = self.map_offset(va);
        if pgd.is_none(self) || pgd.is_bad(self) {
            return None;
        }
        let p4d = pgd.map_offset(va);
        if p4d.is_none(self) || p4d.is_bad(self) {
            return None;
        }
        let pud = p4d.map_offset(self, va);
        if pud.is_none(self) || pud.is_bad(self) {
            return None;
        }
        let pmd = pud.map_offset(self, va);
        if pmd.is_none(self) || pmd.is_bad(self) {
            return None;
        }
        let pte = pmd.map_offset(self, va);
        let mapped = !pte.is_none(self);
        let v = pte.value(self);
        pte.release(self);
        if mapped {
            Some(v)
        } else {
            None
        }
    }

    /// Installs `value` as the leaf entry for page number `p`, creating any
    /// missing intermediate tables on the way down. Every other page keeps
    /// exactly the translation it had.
    pub fn map_page(&mut self, p: u64, value: u64)
        requires
            old(self).wf(),
            p < PAGE_LIMIT,
            value != 0,
            old(self).headroom(1),
        ensures
            final(self).wf(),
            final(self).leaf_maps == old(self).leaf_maps,
            final(self).headroom(0),
            final(self).pud_arena@.len() <= old(self).pud_arena@.len() + 512,
            final(self).pmd_arena@.len() <= old(self).pmd_arena@.len() + 512,
            final(self).pte_arena@.len() <= old(self).pte_arena@.len() + 512,
            final(self).translate_page(p) == Some(value),
            forall|q: u64|
                q < PAGE_LIMIT && q != p ==> #[trigger] final(self).translate_page(q) == old(self).translate_page(q),
    {
        proof {
            lemma_slot_bounds(p);
        }
        let slot0 = ((p >> 27u64) & 0x1ff) as usize;
        let slot1 = ((p >> 18u64) & 0x1ff) as usize;
        let slot2 = ((p >> 9u64) & 0x1ff) as usize;
        let slot3 = (p & 0x1ff) as usize;
        let ghost pt0 = *self;
        let t1 = self.ensure_root_child(slot0);
        let ghost pt_a = *self;
        let t2 = self.ensure_pud_child(t1, slot1);
        let ghost pt_b = *self;
        let t3 = self.ensure_pmd_child(t2, slot2);
        let ghost pt_c = *self;
        proof {
            lemma_flat_index_bound(t3 as int, slot3 as int, pt_c.pte_arena@.len() as int);
        }
        let flat3 = t3 * 512 + slot3;
        self.pte_arena.set(flat3, value);
        proof {
            let f3 = flat3 as int;
            assert(self.wf());
            // The walk for `p` now runs through the three present links the
            // stages installed, down to the freshly written leaf value.
            assert(self.translate_page(p) == Some(value)) by {
                assert(pgd_slot(p) == slot0 as int && pud_slot(p) == slot1 as int && pmd_slot(p)
                    == slot2 as int && pte_slot(p) == slot3 as int);
                assert(entry_present(self.root@[slot0 as int]));
                assert(entry_child(self.root@[slot0 as int]) == t1);
                assert(self.pud_arena@[t1 as int * 512 + slot1 as int] == pt_c.pud_arena@[t1 as int
                    * 512 + slot1 as int]);
                assert(entry_present(self.pud_arena@[t1 as int * 512 + slot1 as int]));
                assert(self.pte_arena@[f3] == value);
            }
            assert forall|q: u64| q < PAGE_LIMIT && q != p implies #[trigger] self.translate_page(
                q,
            ) == pt_c.translate_page(q) by {
                lemma_slot_bounds(q);
                let e0 = pt_c.root@[pgd_slot(q)];
                if entry_present(e0) {
                    let c = entry_child(e0) as int;
                    lemma_flat_index_bound(c, pud_slot(q), pt_c.pud_arena@.len() as int);
                    let e1 = pt_c.pud_arena@[c * 512 + pud_slot(q)];
                    if entry_present(e1) {
                        let c1 = entry_child(e1) as int;
                        lemma_flat_index_bound(c1, pmd_slot(q), pt_c.pmd_arena@.len() as int);
                        let e2 = pt_c.pmd_arena@[c1 * 512 + pmd_slot(q)];
                        if entry_present(e2) {
                            let c2 = entry_child(e2) as int;
                            lemma_flat_index_bound(c2, pte_slot(q), pt_c.pte_arena@.len() as int);
                            let pos3 = c2 * 512 + pte_slot(q);
                            if pos3 == f3 {
                                // A second walk cannot end at the written
                                // slot: child tables are never shared, so the
                                // two walks would have taken the same slots
                                // at every level, making the pages equal.
                                lemma_flat_unique(c2, pte_slot(q), t3 as int, slot3 as int);
                                let f2 = t2 as int * 512 + slot2 as int;
                                assert(entry_present(pt_c.pmd_arena@[f2]));
                                assert(entry_child(pt_c.pmd_arena@[f2]) == t3);
                                assert(c1 * 512 + pmd_slot(q) == f2);
                                lemma_flat_unique(c1, pmd_slot(q), t2 as int, slot2 as int);
                                let f1 = t1 as int * 512 + slot1 as int;
                                assert(entry_present(pt_c.pud_arena@[f1]));
                                assert(entry_child(pt_c.pud_arena@[f1]) == t2);
                                assert(c * 512 + pud_slot(q) == f1);
                                lemma_flat_unique(c, pud_slot(q), t1 as int, slot1 as int);
                                assert(entry_present(pt_c.root@[slot0 as int]));
                                assert(entry_child(pt_c.root@[slot0 as int]) == t1);
                                assert(pgd_slot(q) == slot0 as int);
                                lemma_page_from_slots(p, q);
                                assert(false);
                            }
                        }
                    }
                }
            };
        }
    }
}

/// Round trip at the root level: a state in which `PGD::set_value` just
/// installed `value` (its ensures describe exactly such a state) is one in
/// which `PGD::value` through the same handle reads `value` back.
pub proof fn lemma_pgd_round_trip(pt: PageTables, pt2: PageTables, slot: int, value: u64)
    requires
        0 <= slot < 512,
        pt.root@.len() == 512,
        pt2.root@ == pt.root@.update(slot, value),
    ensures
        pt2.root@[slot] == value,
{
}

/// Round trip at the upper level, between `PUD::set_value` and `PUD::value`.
pub proof fn lemma_pud_round_trip(pt: PageTables, pt2: PageTables, slot: int, value: u64)
    requires
        0 <= slot < pt.pud_arena@.len(),
        pt2.pud_arena@ == pt.pud_arena@.update(slot, value),
    ensures
        pt2.pud_arena@[slot] == value,
{
}

/// Round trip at the middle level, between `PMD::set_value` and
/// `PMD::value`.
pub proof fn lemma_pmd_round_trip(pt: PageTables, pt2: PageTables, slot: int, value: u64)
    requires
        0 <= slot < pt.pmd_arena@.len(),
        pt2.pmd_arena@ == pt.pmd_arena@.update(slot, value),
    ensures
        pt2.pmd_arena@[slot] == value,
{
}

/// Round trip at the leaf level, between `PTE::set_value` and `PTE::value`.
pub proof fn lemma_pte_round_trip(pt: PageTables, pt2: PageTables, slot: int, value: u64)
    requires
        0 <= slot < pt.pte_arena@.len(),
        pt2.pte_arena@ == pt.pte_arena@.update(slot, value),
    ensures
        pt2.pte_arena@[slot] == value,
{
}

/// What the tables translate depends only on their entry contents: two
/// states with the same root and arena contents translate every page alike,
/// whatever else (such as the count of outstanding leaf mappings) differs.
pub proof fn lemma_translate_depends_on_entries(pt1: PageTables, pt2: PageTables, p: u64)
    requires
        pt1.root@ == pt2.root@,
        pt1.pud_arena@ == pt2.pud_arena@,
        pt1.pmd_arena@ == pt2.pmd_arena@,
        pt1.pte_arena@ == pt2.pte_arena@,
    ensures
        pt1.translate_page(p) == pt2.translate_page(p),
{
}

} // verus!
