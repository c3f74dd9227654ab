//! Execution-context resolution: the current context and lookup by
//! identifier.

use kernel_vm::kernel::Kernel;
use kernel_vm::percpu::PerCpu;
use kernel_vm::task::Task;

#[test]
fn with_pid_finds_live_contexts_and_misses_dead_ones() {
    let mut k = Kernel::new();
    let mm = k.add_address_space();
    k.add_task(41, Some(mm));
    k.add_task(42, None);

    let t = Task::with_pid(&k, 41).expect("identifier 41 exists");
    assert!(t.mm_lock(&k).is_some());

    assert!(Task::with_pid(&k, 9999).is_none());
}

#[test]
fn kernel_only_context_has_active_space_but_no_primary() {
    let mut k = Kernel::new();
    k.add_task(42, None);
    let t = Task::with_pid(&k, 42).expect("identifier 42 exists");

    // No user-space mapping: the primary space is absent, which is
    // expected, not a fault.
    assert!(t.mm_lock(&k).is_none());

    // The active space is never absent: the context runs on the system
    // default space.
    let mut l = t.active_mm_lock(&k);
    let g = l.write(&mut k);
    assert_eq!(g.address_space().raw(), 0);
    g.release(&mut k);
}

#[test]
fn current_resolves_through_per_cpu_storage() {
    let mut k = Kernel::new();
    let mm = k.add_address_space();
    let t = k.add_task(7, Some(mm));

    // Boot state: the idle context is current.
    assert_eq!(Task::current(&k).raw(), 0);

    // After a context switch the per-CPU slot names the new context.
    k.set_current(0, t);
    let cur = Task::current(&k);
    assert_eq!(cur.raw(), t);

    // The accessor itself reads the same slot.
    let via_slot = PerCpu::from_var(0).read(&k);
    assert_eq!(via_slot.raw(), t);

    let l = cur.mm_lock(&k).expect("current context has a primary space");
    let g = l.read(&mut k);
    assert_eq!(g.address_space().raw(), mm);
    g.release(&mut k);
}
