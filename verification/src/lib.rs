//! Evaluation of a numeric predicate over a range of integers: how many
//! numbers pass, which ones, and which one has a given digest.
//!
//! - `backend` states what the three operations compute and holds the
//!   strategies that compute it: one pass, one worker to the chunk, and a
//!   managed pool of threads. Whatever the strategy and the number of
//!   workers, the answers are those of one ascending pass.
//! - `lock` holds the spin lock and the proof that its protocol excludes and
//!   loses no update, however the steps of its users interleave.
//! - `util` holds the checksum, the digest of a candidate and the reading of
//!   a digest in hexadecimal; `parse` reads the arguments of a run;
//!   `settings` and `program_mode` say what a run is asked to do and what it
//!   gives.

pub mod backend;
pub mod lock;
pub mod parse;
pub mod program_mode;
pub mod settings;
pub mod util;
