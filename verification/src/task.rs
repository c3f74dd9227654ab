//! Execution-context resolution: the current context, or one looked up by
//! numeric identifier, each yielding its address spaces behind their lock.

use vstd::prelude::*;
use crate::kernel::Kernel;
use crate::percpu::PerCpu;
use crate::rwlock::RwLockRef;
use crate::rwlock::lock_ref_from_mm;

verus! {

/// Handle on one schedulable execution context.
#[derive(Clone, Copy)]
pub struct Task {
    task: usize,
}

impl Task {
    /// Index of the context this handle names.
    pub closed spec fn id(self) -> int {
        self.task as int
    }

    /// The handle names an existing context.
    pub open spec fn valid(self, k: Kernel) -> bool {
        self.id() < k.tasks@.len()
    }

    /// The context running on this CPU right now, resolved through the
    /// per-CPU accessor. Never fails: by kernel invariant every CPU always
    /// has a current context.
    pub fn current(k: &Kernel) -> (t: Task)
        requires
            k.wf(),
        ensures
            t.id() == k.cpu_current@[k.current_cpu as int],
            t.valid(*k),
    {
        PerCpu::from_var(k.current_cpu).read(k)
    }

    /// The context with numeric identifier `pid`, or nothing when no live
    /// context has it at the moment of lookup — the expected race with
    /// process exit, not a failure.
    pub fn with_pid(k: &Kernel, pid: i32) -> (r: Option<Task>)
        requires
            k.wf(),
        ensures
            match r {
                Some(t) => t.valid(*k) && k.tasks@[t.id()].pid == pid,
                None => forall|i: int|
                    0 <= i < k.tasks@.len() ==> (#[trigger] k.tasks@[i]).pid != pid,
            },
    {
        let n = k.tasks.len();
        let mut i: usize = 0;
        while i < n
            invariant
                i <= n,
                n == k.tasks@.len(),
                forall|j: int| 0 <= j < i ==> (#[trigger] k.tasks@[j]).pid != pid,
            decreases n - i,
        {
            if k.tasks[i].pid == pid {
                return Some(Task { task: i });
            }
            i = i + 1;
        }
        None
    }

    /// Reassembles a handle from its raw reference.
    pub fn from_raw(task: usize) -> (r: Task)
        ensures
            r.id() == task,
    {
        Task { task }
    }

    /// The raw reference this handle wraps.
    pub fn raw(&self) -> (r: usize)
        ensures
            r == self.id(),
    {
        self.task
    }

    /// The context's primary address space behind its lock, or nothing for a
    /// kernel-only context with no user-space mapping — expected, not a
    /// fault.
    pub fn mm_lock(&self, k: &Kernel) -> (r: Option<RwLockRef>)
        requires
            k.wf(),
            self.valid(*k),
        ensures
            match r {
                Some(l) => k.tasks@[self.id()].mm == Some(l.mm_id() as usize) && l.mm_id()
                    < k.mms@.len(),
                None => k.tasks@[self.id()].mm is None,
            },
    {
        match k.tasks[self.task].mm {
            Some(mm) => Some(lock_ref_from_mm(mm)),
            None => None,
        }
    }

    /// The address space the context actually uses, behind its lock. Always
    /// present: a context with no primary space runs on the system default
    /// space.
    pub fn active_mm_lock(&self, k: &Kernel) -> (r: RwLockRef)
        requires
            k.wf(),
            self.valid(*k),
        ensures
            r.mm_id() == k.tasks@[self.id()].active_mm,
            r.mm_id() < k.mms@.len(),
    {
        lock_ref_from_mm(k.tasks[self.task].active_mm)
    }
}

/// An existing context always has an active address space, even when its
/// primary space is absent: resolving the active space cannot fail.
pub proof fn lemma_active_space_always_present(k: Kernel, t: Task)
    requires
        k.wf(),
        t.valid(k),
    ensures
        k.tasks@[t.id()].active_mm < k.mms@.len(),
{
}

} // verus!
