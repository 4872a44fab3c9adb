//! The signal by which the workers of a search tell each other that a number
//! has been found.

use vstd::prelude::*;
use std::sync::atomic::AtomicU64;
use std::sync::atomic::Ordering;

verus! {

/// How a found number is written into the signal: 0 stands for "nothing
/// found yet", `x + 1` for the number `x`.
pub open spec fn signal_code(x: u32) -> u64 {
    (x + 1) as u64
}

/// What a word read from the signal stands for.
pub open spec fn signal_value(code: u64) -> Option<u32> {
    if 1 <= code <= 0x1_0000_0000 {
        Some((code - 1) as u32)
    } else {
        None
    }
}

/// The word that stands for `x`.
pub fn encode_signal(x: u32) -> (code: u64)
    ensures
        code == signal_code(x),
        signal_value(code) == Some(x),
{
    x as u64 + 1
}

/// The number that `code` stands for, if it stands for one.
pub fn decode_signal(code: u64) -> (value: Option<u32>)
    ensures
        value == signal_value(code),
{
    if 1 <= code && code <= 0x1_0000_0000 {
        Some((code - 1) as u32)
    } else {
        None
    }
}

/// A result shared by the workers of one search: empty until a worker
/// records what it found. What is read from it is a hint and no more: a
/// worker that sees it set stops early, and a number read from it counts
/// for nothing until it has been tested again.
pub struct SearchSignal {
    slot: AtomicU64,
}

impl SearchSignal {
    /// A signal on which nothing is recorded.
    pub fn new() -> SearchSignal {
        SearchSignal { slot: AtomicU64::new(0) }
    }

    /// Records `x` as found.
    pub(crate) fn record(&self, x: u32) {
        self.slot.store(encode_signal(x), Ordering::Relaxed);
    }

    /// Whether this read saw a recorded number.
    pub(crate) fn is_set(&self) -> bool {
        decode_signal(self.slot.load(Ordering::Relaxed)).is_some()
    }

    /// The number that this read saw recorded.
    pub(crate) fn get(&self) -> Option<u32> {
        decode_signal(self.slot.load(Ordering::SeqCst))
    }
}

} // verus!
