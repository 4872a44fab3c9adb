//! The spin lock: mutual exclusion by busy waiting on one atomic flag.
//!
//! `spin_lock` holds the lock itself: the flag, the value that it guards,
//! and the spinning for the flag, bounded by the caller's patience.
//! `protocol` holds the steps that the users of the lock take, as a state
//! machine, and the proof that no interleaving of those steps lets two
//! workers in at once or loses an update.

pub mod protocol;
pub mod spin_lock;
