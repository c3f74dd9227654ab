//! Walking the page tables of a built address space, level by level.

use kernel_vm::addr_space::AddressSpace;
use kernel_vm::kernel::Kernel;

/// Builds a kernel with one extra address space mapping [0x1000, 0x5000).
fn kernel_with_one_region() -> (Kernel, AddressSpace) {
    let mut k = Kernel::new();
    let mm = k.add_address_space();
    let a = AddressSpace::from_raw(mm);
    let w = a.lock_write(&mut k);
    k.add_region(mm, 0x1000, 0x5000, 0x3, 0);
    w.release(&mut k);
    (k, a)
}

#[test]
fn walk_mapped_address_reaches_present_leaf() {
    let (mut k, a) = kernel_with_one_region();
    let mut g = a.lock_page_tables(&mut k);

    let va: u64 = 0x2345;
    let pgd = g.map_offset(va);
    assert!(!pgd.is_none(g.tables()));
    assert!(!pgd.is_bad(g.tables()));
    let p4d = pgd.map_offset(va);
    assert!(!p4d.is_none(g.tables()));
    assert!(!p4d.is_bad(g.tables()));
    let pud = p4d.map_offset(g.tables(), va);
    assert!(!pud.is_none(g.tables()));
    assert!(!pud.is_bad(g.tables()));
    let pmd = pud.map_offset(g.tables(), va);
    assert!(!pmd.is_none(g.tables()));
    assert!(!pmd.is_bad(g.tables()));
    let pte = pmd.map_offset(g.tables_mut(), va);
    assert!(!pte.is_none(g.tables()));
    let leaf = pte.value(g.tables());
    assert_ne!(leaf, 0);
    pte.release(g.tables_mut());

    g.release(&mut k);
}

#[test]
fn walk_unmapped_address_finds_nothing() {
    let (mut k, a) = kernel_with_one_region();
    let mut g = a.lock_page_tables(&mut k);

    // Far outside the region: the walk stops at an empty root entry.
    let pgd = g.map_offset(0x7000_0000_0000);
    assert!(pgd.is_none(g.tables()));

    // The composed walk agrees for both sides of the region boundary.
    assert!(a.translate(&mut g, 0x1000).is_some());
    assert!(a.translate(&mut g, 0x4fff).is_some());
    assert!(a.translate(&mut g, 0x5000).is_none());
    assert!(a.translate(&mut g, 0x0).is_none());
    assert!(a.translate(&mut g, 0x7000_0000_0000).is_none());

    g.release(&mut k);
}

#[test]
fn translate_returns_installed_leaf_value() {
    let (mut k, a) = kernel_with_one_region();
    let mut g = a.lock_page_tables(&mut k);
    // The builder installs (page << 12) | 0x67 as each leaf value.
    let r = a.translate(&mut g, 0x2345);
    assert_eq!(r, Some(0x2067));
    g.release(&mut k);
}

#[test]
fn leaf_mappings_balance_to_zero() {
    let (mut k, a) = kernel_with_one_region();
    let mut g = a.lock_page_tables(&mut k);
    assert_eq!(g.tables().leaf_maps, 0);
    let va: u64 = 0x1000;
    let pmd = g
        .map_offset(va)
        .map_offset(va)
        .map_offset(g.tables(), va)
        .map_offset(g.tables(), va);
    let pte = pmd.map_offset(g.tables_mut(), va);
    assert_eq!(g.tables().leaf_maps, 1);
    pte.release(g.tables_mut());
    assert_eq!(g.tables().leaf_maps, 0);
    g.release(&mut k);
}

#[test]
fn mappings_of_one_space_do_not_leak_into_another() {
    let mut k = Kernel::new();
    let mm_a = k.add_address_space();
    let mm_b = k.add_address_space();
    let a = AddressSpace::from_raw(mm_a);
    let b = AddressSpace::from_raw(mm_b);

    let w = a.lock_write(&mut k);
    k.add_region(mm_a, 0x1000, 0x2000, 0x3, 0);
    w.release(&mut k);

    let mut ga = a.lock_page_tables(&mut k);
    assert!(a.translate(&mut ga, 0x1000).is_some());
    ga.release(&mut k);

    let mut gb = b.lock_page_tables(&mut k);
    assert!(b.translate(&mut gb, 0x1000).is_none());
    gb.release(&mut k);
}
