//! The reference strategy: one pass over the range, in ascending order.

use vstd::prelude::*;
use crate::backend::{
    answers_search, lemma_passing_empty, lemma_passing_exact, lemma_passing_step, none_passes,
    numbered, passing, Backend, Predicate,
};
use crate::settings::Settings;
use crate::util::{m_proef, new_hasher, valid_hash_fast};

verus! {

/// Counts the numbers of `[low, high)` that pass `p`.
pub fn count_range<P: Predicate>(p: &P, low: u32, high: u32) -> (count: u32)
    ensures
        count == passing(p, low as int, high as int).len(),
{
    let mut count: u32 = 0;
    let mut x: u32 = low;
    proof {
        lemma_passing_empty(p, low as int, low as int);
    }
    while x < high
        invariant
            low <= x,
            high <= low ==> x == low,
            low < high ==> x <= high,
            count == passing(p, low as int, x as int).len(),
            count <= x - low,
        decreases high - x,
    {
        proof {
            lemma_passing_step(p, low as int, x as int);
        }
        if p.test(x) {
            count += 1;
        }
        x += 1;
    }
    proof {
        if high <= low {
            lemma_passing_empty(p, low as int, low as int);
            lemma_passing_empty(p, low as int, high as int);
        }
    }
    count
}

/// Collects the numbers of `[low, high)` that pass `p`, in ascending order.
pub fn list_range<P: Predicate>(p: &P, low: u32, high: u32) -> (found: Vec<u32>)
    ensures
        found@ == passing(p, low as int, high as int),
{
    let mut found: Vec<u32> = Vec::new();
    let mut x: u32 = low;
    proof {
        lemma_passing_empty(p, low as int, low as int);
    }
    while x < high
        invariant
            low <= x,
            high <= low ==> x == low,
            low < high ==> x <= high,
            found@ == passing(p, low as int, x as int),
        decreases high - x,
    {
        proof {
            lemma_passing_step(p, low as int, x as int);
        }
        if p.test(x) {
            found.push(x);
        }
        x += 1;
    }
    proof {
        if high <= low {
            lemma_passing_empty(p, low as int, low as int);
            lemma_passing_empty(p, low as int, high as int);
        }
    }
    found
}

/// Finds the least number of `[low, high)` that passes `p`.
pub fn find_range<P: Predicate>(p: &P, low: u32, high: u32) -> (answer: Option<u32>)
    ensures
        answers_search(p, low as int, high as int, answer),
        answer matches Some(x) ==> none_passes(p, low as int, x as int),
{
    let mut x: u32 = low;
    while x < high
        invariant
            low <= x,
            none_passes(p, low as int, x as int),
        decreases high - x,
    {
        if p.test(x) {
            return Some(x);
        }
        x += 1;
    }
    None
}

/// Lists the numbers of `[low, high)` that pass `p`, in ascending order, each
/// with its ordinal, counted from 1.
pub fn enumerate_range<P: Predicate>(p: &P, low: u32, high: u32) -> (listing: Vec<(u32, u32)>)
    ensures
        listing@ == numbered(passing(p, low as int, high as int), 1),
{
    let mut listing: Vec<(u32, u32)> = Vec::new();
    let mut x: u32 = low;
    proof {
        lemma_passing_empty(p, low as int, low as int);
    }
    while x < high
        invariant
            low <= x,
            high <= low ==> x == low,
            low < high ==> x <= high,
            listing@ == numbered(passing(p, low as int, x as int), 1),
        decreases high - x,
    {
        proof {
            lemma_passing_step(p, low as int, x as int);
            lemma_passing_exact(p, low as int, x as int);
        }
        if p.test(x) {
            let ordinal: u32 = (listing.len() + 1) as u32;
            listing.push((ordinal, x));
        }
        x += 1;
    }
    proof {
        if high <= low {
            lemma_passing_empty(p, low as int, low as int);
            lemma_passing_empty(p, low as int, high as int);
        }
    }
    listing
}

/// The strategy of one worker and one pass.
#[derive(Clone, Copy, Debug)]
pub struct SequentialBackend;

impl Backend for SequentialBackend {
    fn run_count(&self, settings: &Settings) -> (count: u32) {
        count_range(&settings.checksum(), settings.bottom, settings.top)
    }

    fn run_list(&self, settings: &Settings) -> (listing: Vec<(u32, u32)>) {
        enumerate_range(&settings.checksum(), settings.bottom, settings.top)
    }

    /// The least number of the range that qualifies. One hasher and one
    /// buffer serve all candidates.
    fn run_search(&self, settings: &Settings, hash: Box<[u8; 20]>) -> (answer: Option<u32>)
        ensures
            answer matches Some(x) ==> none_passes(
                &settings.preimage_spec(*hash),
                settings.bottom as int,
                x as int,
            ),
    {
        let mut sha1 = new_hasher();
        let mut buffer: Vec<u8> = Vec::with_capacity(10);
        let mut x: u32 = settings.bottom;
        while x < settings.top
            invariant
                settings.wf(),
                settings.bottom <= x <= settings.top,
                none_passes(&settings.preimage_spec(*hash), settings.bottom as int, x as int),
            decreases settings.top - x,
        {
            if m_proef(x, settings.modulo) && valid_hash_fast(x, &*hash, &mut buffer, &mut sha1) {
                return Some(x);
            }
            x += 1;
        }
        None
    }
}

} // verus!
