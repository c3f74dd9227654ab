//! Raw-value round trips through every table-entry handle that supports
//! reading and writing its entry.

use kernel_vm::addr_space::AddressSpace;
use kernel_vm::kernel::Kernel;

fn kernel_with_one_region() -> (Kernel, AddressSpace) {
    let mut k = Kernel::new();
    let mm = k.add_address_space();
    let a = AddressSpace::from_raw(mm);
    let w = a.lock_write(&mut k);
    k.add_region(mm, 0x1000, 0x2000, 0x3, 0);
    w.release(&mut k);
    (k, a)
}

#[test]
fn pgd_set_value_round_trip() {
    let (mut k, a) = kernel_with_one_region();
    let mut g = a.lock_page_tables(&mut k);
    let va: u64 = 0x1000;
    let mut pgd = g.map_offset(va);
    let v = pgd.value(g.tables());
    assert_ne!(v, 0);
    // Reinstalling the raw pattern it read keeps the tables walkable.
    pgd.set_value(g.tables_mut(), v);
    assert_eq!(pgd.value(g.tables()), v);
    // Clearing the entry reads back as empty.
    pgd.set_value(g.tables_mut(), 0);
    assert_eq!(pgd.value(g.tables()), 0);
    assert!(pgd.is_none(g.tables()));
    pgd.set_value(g.tables_mut(), v);
    g.release(&mut k);
}

#[test]
fn pud_set_value_round_trip() {
    let (mut k, a) = kernel_with_one_region();
    let mut g = a.lock_page_tables(&mut k);
    let va: u64 = 0x1000;
    let p4d = g.map_offset(va).map_offset(va);
    let mut pud = p4d.map_offset(g.tables(), va);
    let v = pud.value(g.tables());
    assert_ne!(v, 0);
    pud.set_value(g.tables_mut(), v);
    assert_eq!(pud.value(g.tables()), v);
    pud.set_value(g.tables_mut(), 0);
    assert_eq!(pud.value(g.tables()), 0);
    pud.set_value(g.tables_mut(), v);
    g.release(&mut k);
}

#[test]
fn pmd_set_value_round_trip() {
    let (mut k, a) = kernel_with_one_region();
    let mut g = a.lock_page_tables(&mut k);
    let va: u64 = 0x1000;
    let p4d = g.map_offset(va).map_offset(va);
    let pud = p4d.map_offset(g.tables(), va);
    let mut pmd = pud.map_offset(g.tables(), va);
    let v = pmd.value(g.tables());
    assert_ne!(v, 0);
    pmd.set_value(g.tables_mut(), v);
    assert_eq!(pmd.value(g.tables()), v);
    pmd.set_value(g.tables_mut(), 0);
    assert!(pmd.is_none(g.tables()));
    pmd.set_value(g.tables_mut(), v);
    g.release(&mut k);
}

#[test]
fn pte_set_value_round_trip() {
    let (mut k, a) = kernel_with_one_region();
    let mut g = a.lock_page_tables(&mut k);
    let va: u64 = 0x1000;
    let pmd = g
        .map_offset(va)
        .map_offset(va)
        .map_offset(g.tables(), va)
        .map_offset(g.tables(), va);
    let mut pte = pmd.map_offset(g.tables_mut(), va);
    // The leaf level accepts any raw pattern.
    pte.set_value(g.tables_mut(), 0xdead_beef_0001);
    assert_eq!(pte.value(g.tables()), 0xdead_beef_0001);
    pte.set_value(g.tables_mut(), 0);
    assert!(pte.is_none(g.tables()));
    pte.set_value(g.tables_mut(), 0x1067);
    assert_eq!(pte.value(g.tables()), 0x1067);
    pte.release(g.tables_mut());
    g.release(&mut k);
}

#[test]
fn extended_root_level_discards_writes() {
    let (mut k, a) = kernel_with_one_region();
    let mut g = a.lock_page_tables(&mut k);
    let va: u64 = 0x1000;
    let pgd = g.map_offset(va);
    let mut p4d = pgd.map_offset(va);
    let before = p4d.value(g.tables());
    // The extended root is compiled out: the degenerate handle discards
    // installed values and keeps reading the root entry.
    p4d.set_value(0xffff);
    assert_eq!(p4d.value(g.tables()), before);
    assert!(!p4d.is_bad(g.tables()));
    g.release(&mut k);
}

#[test]
fn clearing_a_leaf_entry_unmaps_only_that_page() {
    let mut k = Kernel::new();
    let mm = k.add_address_space();
    let a = AddressSpace::from_raw(mm);
    let w = a.lock_write(&mut k);
    k.add_region(mm, 0x1000, 0x3000, 0x3, 0);
    w.release(&mut k);

    let mut g = a.lock_page_tables(&mut k);
    let va: u64 = 0x1000;
    let pmd = g
        .map_offset(va)
        .map_offset(va)
        .map_offset(g.tables(), va)
        .map_offset(g.tables(), va);
    let mut pte = pmd.map_offset(g.tables_mut(), va);
    pte.set_value(g.tables_mut(), 0);
    pte.release(g.tables_mut());
    assert!(a.translate(&mut g, 0x1000).is_none());
    assert!(a.translate(&mut g, 0x2000).is_some());
    g.release(&mut k);
}
