//! The choice of a strategy by lot.

use vstd::prelude::*;
use rand::distributions::{IndependentSample, Range};

verus! {

/// The strategies.
#[derive(Clone, Copy, Debug, PartialEq, Eq, Structural)]
pub enum BackendKind {
    /// A managed pool, the listing numbered under the closure lock.
    SpinLock,
    /// A managed pool.
    Rayon,
    /// A managed pool, the listing numbered under the guard lock.
    AdvancedSpinLock,
    /// One worker to the chunk.
    Thread,
    /// One pass.
    Sequential,
}

/// How many strategies there are.
pub const BACKEND_KINDS: u32 = 5;

/// The strategy with the number `index`.
pub open spec fn kind_of(index: u32) -> BackendKind {
    if index == 0 {
        BackendKind::SpinLock
    } else if index == 1 {
        BackendKind::Rayon
    } else if index == 2 {
        BackendKind::AdvancedSpinLock
    } else if index == 3 {
        BackendKind::Thread
    } else {
        BackendKind::Sequential
    }
}

/// The strategy with the number `index`.
pub fn backend_kind(index: u32) -> (kind: BackendKind)
    requires
        index < BACKEND_KINDS,
    ensures
        kind == kind_of(index),
{
    if index == 0 {
        BackendKind::SpinLock
    } else if index == 1 {
        BackendKind::Rayon
    } else if index == 2 {
        BackendKind::AdvancedSpinLock
    } else if index == 3 {
        BackendKind::Thread
    } else {
        BackendKind::Sequential
    }
}

/// Draws a number below `bound` from `rand::thread_rng` with
/// `rand::distributions::Range`, which samples the half-open interval from
/// 0 to `bound`. Which number comes out differs from call to call.
#[verifier::external_body]
pub(crate) fn random_below(bound: u32) -> (drawn: u32)
    requires
        bound > 0,
    ensures
        drawn < bound,
{
    let mut rng = rand::thread_rng();
    Range::new(0, bound).ind_sample(&mut rng)
}

/// Picks a strategy by lot.
pub fn any_backend_kind() -> (kind: BackendKind)
    ensures
        exists|index: u32| index < BACKEND_KINDS && kind == kind_of(index),
{
    let index: u32 = random_below(BACKEND_KINDS);
    backend_kind(index)
}

} // verus!
