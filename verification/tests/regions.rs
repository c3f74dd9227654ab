//! Region queries: the iterator and the containing-region lookup.

use kernel_vm::Error;
use kernel_vm::addr_space::AddressSpace;
use kernel_vm::kernel::Kernel;
use kernel_vm::vma::VMFlags;
use kernel_vm::vma::VM_READ;
use kernel_vm::vma::VM_WRITE;

/// Builds a space with three regions, in list order.
fn kernel_with_three_regions() -> (Kernel, AddressSpace) {
    let mut k = Kernel::new();
    let mm = k.add_address_space();
    let a = AddressSpace::from_raw(mm);
    let w = a.lock_write(&mut k);
    k.add_region(mm, 0x1000, 0x3000, VM_READ, 0);
    k.add_region(mm, 0x5000, 0x6000, VM_READ | VM_WRITE, 2);
    k.add_region(mm, 0x9000, 0xb000, VM_READ, 5);
    w.release(&mut k);
    (k, a)
}

#[test]
fn iterator_yields_each_region_once_in_order() {
    let (mut k, a) = kernel_with_three_regions();
    let r = a.lock_read(&mut k);
    let mut it = a.vmas(&k);

    let v1 = it.next(&k).expect("first region");
    assert_eq!(v1.start(&k), 0x1000);
    assert_eq!(v1.end(&k), 0x3000);
    let v2 = it.next(&k).expect("second region");
    assert_eq!(v2.start(&k), 0x5000);
    assert_eq!(v2.end(&k), 0x6000);
    let v3 = it.next(&k).expect("third region");
    assert_eq!(v3.start(&k), 0x9000);
    assert_eq!(v3.end(&k), 0xb000);
    assert!(it.next(&k).is_none());
    assert!(it.next(&k).is_none());

    r.release(&mut k);
}

#[test]
fn find_vma_returns_the_containing_region() {
    let (mut k, a) = kernel_with_three_regions();
    let r = a.lock_read(&mut k);

    let v = a.find_vma(&k, 0x5800).expect("0x5800 is mapped");
    assert_eq!(v.start(&k), 0x5000);
    assert_eq!(v.end(&k), 0x6000);
    assert_eq!(v.offset(&k), 2);

    let first = a.find_vma(&k, 0x1000).expect("region start is inside");
    assert_eq!(first.start(&k), 0x1000);

    r.release(&mut k);
}

#[test]
fn find_vma_misses_between_and_outside_regions() {
    let (mut k, a) = kernel_with_three_regions();
    let r = a.lock_read(&mut k);
    assert_eq!(a.find_vma(&k, 0x0).unwrap_err(), Error::ENOENT);
    assert_eq!(a.find_vma(&k, 0x3000).unwrap_err(), Error::ENOENT);
    assert_eq!(a.find_vma(&k, 0x4fff).unwrap_err(), Error::ENOENT);
    assert_eq!(a.find_vma(&k, 0xb000).unwrap_err(), Error::ENOENT);
    assert_eq!(a.find_vma(&k, 0xffff_ffff).unwrap_err(), Error::ENOENT);
    r.release(&mut k);
}

#[test]
fn region_flags_read_and_write() {
    let (mut k, a) = kernel_with_three_regions();

    let r = a.lock_read(&mut k);
    let v = a.find_vma(&k, 0x5000).expect("mapped");
    let f = v.flags(&k);
    assert!(f.contains(VMFlags::from_bits_truncate(VM_READ)));
    assert!(f.contains(VMFlags::from_bits_truncate(VM_WRITE)));
    assert_eq!(f.bits(), VM_READ | VM_WRITE);
    r.release(&mut k);

    // Mutating flags demands the exclusive lock.
    let w = a.lock_write(&mut k);
    let mut v = a.find_vma(&k, 0x5000).expect("mapped");
    v.set_flags(&mut k, VMFlags::from_bits_truncate(VM_READ));
    assert_eq!(v.flags(&k).bits(), VM_READ);
    w.release(&mut k);
}

#[test]
fn mapped_pages_follow_the_region_list() {
    let (mut k, a) = kernel_with_three_regions();
    let mut g = a.lock_page_tables(&mut k);
    assert!(a.translate(&mut g, 0x1000).is_some());
    assert!(a.translate(&mut g, 0x2fff).is_some());
    assert!(a.translate(&mut g, 0x3000).is_none());
    assert!(a.translate(&mut g, 0x5000).is_some());
    assert!(a.translate(&mut g, 0x8000).is_none());
    assert!(a.translate(&mut g, 0xa000).is_some());
    assert!(a.translate(&mut g, 0xb000).is_none());
    g.release(&mut k);
}

#[test]
fn iterator_on_empty_space_terminates_at_once() {
    let mut k = Kernel::new();
    let mm = k.add_address_space();
    let a = AddressSpace::from_raw(mm);
    let r = a.lock_read(&mut k);
    let mut it = a.vmas(&k);
    assert!(it.next(&k).is_none());
    r.release(&mut k);
}
