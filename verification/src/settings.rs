//! What one run is asked to do.

use vstd::prelude::*;
use crate::backend::{Checksum, Preimage};

verus! {

/// The range to evaluate, the modulus of the checksum and the number of
/// workers.
#[derive(Clone, Copy, Debug, PartialEq, Eq, Structural)]
pub struct Settings {
    /// Whether the run asked for the spin lock of this library.
    pub custom_lock: bool,
    /// The first number of the range.
    pub bottom: u32,
    /// The end of the range, itself not part of it.
    pub top: u32,
    /// The modulus of the checksum.
    pub modulo: u32,
    /// The number of workers.
    pub threads: u32,
}

impl Settings {
    /// The range is in order, the checksum has a modulus to divide by, and
    /// there is a worker to do the work.
    pub open spec fn wf(&self) -> bool {
        &&& self.bottom <= self.top
        &&& self.modulo != 0
        &&& self.threads >= 1
    }

    /// Decides `wf`.
    pub fn is_valid(&self) -> (valid: bool)
        ensures
            valid == self.wf(),
    {
        self.bottom <= self.top && self.modulo != 0 && self.threads >= 1
    }

    /// The checksum of these settings.
    pub open spec fn checksum_spec(&self) -> Checksum {
        Checksum { modulo: self.modulo }
    }

    /// The checksum of these settings.
    pub fn checksum(&self) -> (p: Checksum)
        ensures
            p == self.checksum_spec(),
    {
        Checksum { modulo: self.modulo }
    }

    /// The test that a search with these settings puts to a candidate.
    pub open spec fn preimage_spec(&self, hash: [u8; 20]) -> Preimage {
        Preimage { modulo: self.modulo, hash }
    }

    /// The test that a search with these settings puts to a candidate.
    pub fn preimage(&self, hash: [u8; 20]) -> (p: Preimage)
        ensures
            p == self.preimage_spec(hash),
    {
        Preimage { modulo: self.modulo, hash }
    }
}

} // verus!
