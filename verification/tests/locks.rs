//! Reader/writer exclusion and scoped release of the lock guards.

use kernel_vm::addr_space::AddressSpace;
use kernel_vm::kernel::Kernel;

fn kernel_with_space() -> (Kernel, AddressSpace) {
    let mut k = Kernel::new();
    let mm = k.add_address_space();
    (k, AddressSpace::from_raw(mm))
}

#[test]
fn write_guard_blocks_readers_and_writers() {
    let (mut k, a) = kernel_with_space();
    let w = a.lock_write(&mut k);
    // A reader acquiring now would block; the try form reports that.
    assert!(a.try_lock_read(&mut k).is_none());
    assert!(a.try_lock_write(&mut k).is_none());
    w.release(&mut k);
    // Once the writer is gone the reader is granted.
    let r = a.try_lock_read(&mut k);
    assert!(r.is_some());
    r.unwrap().release(&mut k);
}

#[test]
fn two_readers_share_the_lock() {
    let (mut k, a) = kernel_with_space();
    let r1 = a.try_lock_read(&mut k);
    assert!(r1.is_some());
    let r2 = a.try_lock_read(&mut k);
    assert!(r2.is_some());
    // A writer acquiring now would block on both readers.
    assert!(a.try_lock_write(&mut k).is_none());
    r1.unwrap().release(&mut k);
    assert!(a.try_lock_write(&mut k).is_none());
    r2.unwrap().release(&mut k);
    let w = a.try_lock_write(&mut k);
    assert!(w.is_some());
    w.unwrap().release(&mut k);
}

#[test]
fn released_guards_free_the_lock_for_reacquisition() {
    let (mut k, a) = kernel_with_space();
    let r = a.lock_read(&mut k);
    r.release(&mut k);
    // Releasing consumed the guard; the lock is free again.
    let w = a.lock_write(&mut k);
    w.release(&mut k);
    let r2 = a.lock_read(&mut k);
    r2.release(&mut k);
}

#[test]
fn table_root_lock_is_scoped() {
    let (mut k, a) = kernel_with_space();
    let g = a.lock_page_tables(&mut k);
    g.release(&mut k);
    // A released table-root guard frees the spinlock for the next holder.
    let g2 = a.lock_page_tables(&mut k);
    g2.release(&mut k);
}

#[test]
fn rwlock_facade_from_task_resolution() {
    let mut k = Kernel::new();
    let mm = k.add_address_space();
    let t = k.add_task(7, Some(mm));
    let task = kernel_vm::task::Task::from_raw(t);
    let mut l = task.mm_lock(&k).expect("task has a primary space");
    let rg = l.read(&mut k);
    let a = rg.address_space();
    assert_eq!(a.raw(), mm);
    rg.release(&mut k);
    let wg = l.write(&mut k);
    assert_eq!(wg.address_space().raw(), mm);
    wg.release(&mut k);
}

#[test]
fn locks_of_different_spaces_are_independent() {
    let mut k = Kernel::new();
    let a = AddressSpace::from_raw(k.add_address_space());
    let b = AddressSpace::from_raw(k.add_address_space());
    let w = a.lock_write(&mut k);
    // Holding one space's lock exclusively leaves every other space free.
    let r = b.try_lock_read(&mut k).expect("other space is free");
    r.release(&mut k);
    w.release(&mut k);
}
