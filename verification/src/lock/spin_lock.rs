//! A lock that guards one value and hands it to a closure.

use vstd::prelude::*;
use std::sync::atomic::AtomicBool;
use std::sync::atomic::Ordering;
use crate::lock::protocol::{after_swap, after_watch, Stage};

verus! {

/// A value and the flag that guards it. The value is reached only from
/// inside `try_lock` and `lock_within`, between the taking of the flag and
/// its release, and only by shared reference: a value that is to change under
/// the lock brings its own interior mutability, and the lock gives the
/// exclusion that makes a read followed by a write safe.
///
/// The flag is taken by one atomic swap and by nothing else, and it is
/// released once for each time it was taken, after the closure has returned:
/// neither taking nor releasing can be called from outside.
pub struct SpinLock<T> {
    /// The data protected by this lock.
    data: T,
    /// True while the lock is taken.
    lock_taken: AtomicBool,
}

impl<T> SpinLock<T> {
    /// The value that the lock guards.
    pub closed spec fn value(&self) -> T {
        self.data
    }

    /// A released lock that guards `data`.
    pub fn new(data: T) -> (lock: SpinLock<T>)
        ensures
            lock.value() == data,
    {
        SpinLock { data, lock_taken: AtomicBool::new(false) }
    }

    /// One attempt at the lock. If the flag could be taken, `f` runs once on
    /// the guarded value, the flag is released, and what `f` returned is
    /// handed back; if not, nothing has run.
    pub fn try_lock<R, F: Fn(&T) -> R>(&self, f: &F) -> (ran: Option<R>)
        requires
            call_requires(*f, (&self.value(),)),
        ensures
            ran matches Some(r) ==> call_ensures(*f, (&self.value(),), r),
    {
        self.lock_within(f, 1, false)
    }

    /// Spins for the lock, for `patience` steps at most. A step is a swap of
    /// the flag from free to taken or, for a caller that `watches`, after a
    /// swap that failed, a read of the flag: such a caller swaps again only
    /// once it has seen the flag free. As soon as a swap has taken the
    /// flag, `f` runs once on the guarded value, the flag is released, and
    /// what `f` returned is handed back. If the steps run out, nothing has
    /// run. To wait without bound, call again.
    pub fn lock_within<R, F: Fn(&T) -> R>(&self, f: &F, patience: u64, watches: bool) -> (ran:
        Option<R>)
        requires
            call_requires(*f, (&self.value(),)),
        ensures
            ran matches Some(r) ==> call_ensures(*f, (&self.value(),), r),
            patience == 0 ==> ran is None,
    {
        let mut stage = Stage::Swapping;
        let mut left: u64 = patience;
        while left > 0
            invariant
                stage is Swapping || stage is Watching,
                call_requires(*f, (&self.value(),)),
                left <= patience,
            decreases left,
        {
            left -= 1;
            stage = match stage {
                Stage::Swapping => after_swap(self.take_lock(), watches),
                _ => after_watch(self.is_taken()),
            };
            if stage == Stage::Reading {
                let r = f(&self.data);
                self.release_lock();
                return Some(r);
            }
        }
        None
    }

    /// One atomic swap of the flag from free to taken; gives `true` if the
    /// flag was taken already, and the swap has changed nothing.
    fn take_lock(&self) -> bool {
        self.lock_taken.compare_exchange(false, true, Ordering::SeqCst, Ordering::SeqCst).is_err()
    }

    /// One read of the flag.
    fn is_taken(&self) -> bool {
        self.lock_taken.load(Ordering::SeqCst)
    }

    /// Sets the flag free.
    fn release_lock(&self) {
        self.lock_taken.store(false, Ordering::SeqCst);
    }
}

} // verus!
