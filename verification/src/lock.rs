//! The reentrant lock that serialises calls into the geometry kernel: a
//! thread may enter it again while it holds it, and only its outermost entry
//! takes (and, on leaving, gives back) the process-wide mutex.
use vstd::prelude::*;

verus! {

/// How deeply the current thread has entered the lock.
pub struct LockDepth {
    depth: usize,
}

/// What one entry of the lock hands back: whether it is the outermost entry,
/// the one that holds the process-wide mutex.
pub struct CgalLockGuard {
    holds_global: bool,
}

impl View for LockDepth {
    type V = nat;

    closed spec fn view(&self) -> nat {
        self.depth as nat
    }
}

impl View for CgalLockGuard {
    type V = bool;

    closed spec fn view(&self) -> bool {
        self.holds_global
    }
}

/// Entering at depth `d` leads to depth `d + 1`, and takes the mutex exactly
/// when `d` is 0.
pub open spec fn enter(d: nat) -> (nat, bool) {
    (d + 1, d == 0)
}

/// Leaving at depth `d` (not 0) leads to depth `d - 1`.
pub open spec fn leave(d: nat) -> nat {
    (d - 1) as nat
}

impl LockDepth {
    /// A thread that has not entered the lock.
    pub fn new() -> (d: Self)
        ensures
            d@ == 0,
    {
        LockDepth { depth: 0 }
    }

    pub fn depth(&self) -> (d: usize)
        ensures
            d == self@,
    {
        self.depth
    }
}

impl CgalLockGuard {
    /// Whether this entry holds the process-wide mutex.
    pub fn holds_global(&self) -> (b: bool)
        ensures
            b == self@,
    {
        self.holds_global
    }
}

/// Enters the lock: counts one more entry, and the outermost entry (at depth
/// 0) is the one that must take the process-wide mutex.
pub fn lock(depth: &mut LockDepth) -> (guard: CgalLockGuard)
    requires
        old(depth)@ < usize::MAX,
    ensures
        (final(depth)@, guard@) == enter(old(depth)@),
{
    let old_depth = depth.depth;
    depth.depth = old_depth + 1;
    CgalLockGuard { holds_global: old_depth == 0 }
}

/// Leaves the lock (what dropping the guard does): counts one entry less and
/// tells whether the process-wide mutex is given back, which is when the guard
/// was the outermost one.
pub fn release(depth: &mut LockDepth, guard: CgalLockGuard) -> (gives_back_global: bool)
    requires
        old(depth)@ > 0,
    ensures
        final(depth)@ == leave(old(depth)@),
        gives_back_global == guard@,
{
    depth.depth = depth.depth - 1;
    guard.holds_global
}

/// Entering and then leaving the lock brings a thread back to the depth it
/// had, and that entry held the process-wide mutex exactly when the thread
/// held no entry before.
pub proof fn law_enter_then_leave(d: nat)
    ensures
        leave(enter(d).0) == d,
        enter(d).1 <==> d == 0,
{
}

/// Of nested entries only the outermost takes the process-wide mutex: an
/// entry made while the thread already holds one does not.
pub proof fn law_nested_entry_keeps_global_untouched(d: nat)
    requires
        d > 0,
    ensures
        !enter(d).1,
{
}

} // verus!
