//! The three operations on a range (count, enumerate, search) and the
//! strategies that carry them out. Every strategy answers to the same
//! mathematical statement, found here.

pub mod any;
pub mod rayon;
pub mod sequential;
pub mod signal;
pub mod threads;

use vstd::prelude::*;
use crate::settings::Settings;
use crate::util::{m_proef, m_proef_spec, valid_hash, valid_hash_spec};

verus! {

/// A pure test on a number.
pub trait Predicate {
    /// The set of numbers that pass.
    spec fn holds(&self, x: u32) -> bool;

    /// Decides whether `x` passes.
    fn test(&self, x: u32) -> (passes: bool)
        ensures
            passes == self.holds(x),
    ;
}

/// The checksum: the weighted digit sum of a number is a multiple of `modulo`.
/// With a modulus of 0 no number passes.
#[derive(Clone, Copy, Debug)]
pub struct Checksum {
    pub modulo: u32,
}

impl Predicate for Checksum {
    open spec fn holds(&self, x: u32) -> bool {
        self.modulo != 0 && m_proef_spec(x, self.modulo)
    }

    fn test(&self, x: u32) -> (passes: bool) {
        self.modulo != 0 && m_proef(x, self.modulo)
    }
}

/// What a search looks for: a number that passes the checksum and whose
/// decimal numeral has the digest `hash`.
#[derive(Clone, Copy, Debug)]
pub struct Preimage {
    pub modulo: u32,
    pub hash: [u8; 20],
}

impl Predicate for Preimage {
    open spec fn holds(&self, x: u32) -> bool {
        self.modulo != 0 && m_proef_spec(x, self.modulo) && valid_hash_spec(x, self.hash@)
    }

    fn test(&self, x: u32) -> (passes: bool) {
        self.modulo != 0 && m_proef(x, self.modulo) && valid_hash(x, &self.hash)
    }
}

/// A strategy for the three operations. Whatever the strategy, the answers
/// are those of one ascending pass over the range.
pub trait Backend {
    /// How many numbers of the range pass the checksum.
    fn run_count(&self, settings: &Settings) -> (count: u32)
        requires
            settings.wf(),
        ensures
            count == passing(
                &settings.checksum_spec(),
                settings.bottom as int,
                settings.top as int,
            ).len(),
    ;

    /// The numbers of the range that pass the checksum, in ascending order,
    /// each with its ordinal, counted from 1.
    fn run_list(&self, settings: &Settings) -> (listing: Vec<(u32, u32)>)
        requires
            settings.wf(),
        ensures
            listing@ == numbered(
                passing(&settings.checksum_spec(), settings.bottom as int, settings.top as int),
                1,
            ),
    ;

    /// A number of the range that passes the checksum and has the digest
    /// `hash`, or `None` where the range holds no such number.
    fn run_search(&self, settings: &Settings, hash: Box<[u8; 20]>) -> (answer: Option<u32>)
        requires
            settings.wf(),
        ensures
            answers_search(
                &settings.preimage_spec(*hash),
                settings.bottom as int,
                settings.top as int,
                answer,
            ),
    ;
}

/// The numbers from `low` up to but not including `high`, ascending; empty
/// where `high <= low`.
pub open spec fn range_values(low: int, high: int) -> Seq<u32> {
    if low < high {
        Seq::new((high - low) as nat, |i: int| (low + i) as u32)
    } else {
        Seq::empty()
    }
}

/// The test of `p` as a function of the number alone.
pub open spec fn test_of<P: Predicate>(p: &P) -> spec_fn(u32) -> bool {
    |x: u32| p.holds(x)
}

/// The numbers of `[low, high)` that pass `p`, ascending.
pub open spec fn passing<P: Predicate>(p: &P, low: int, high: int) -> Seq<u32> {
    range_values(low, high).filter(test_of(p))
}

/// The listing of `found`: each value with its ordinal, the first being
/// `first`.
pub open spec fn numbered(found: Seq<u32>, first: int) -> Seq<(u32, u32)> {
    Seq::new(found.len(), |i: int| ((first + i) as u32, found[i]))
}

/// Whether no number of `[low, high)` passes `p`.
pub open spec fn none_passes<P: Predicate>(p: &P, low: int, high: int) -> bool {
    forall|x: u32| low <= x < high ==> !p.holds(x)
}

/// Whether `answer` is a right answer to the search for a number of
/// `[low, high)` that passes `p`: a number that passes, or nothing where
/// nothing passes.
pub open spec fn answers_search<P: Predicate>(
    p: &P,
    low: int,
    high: int,
    answer: Option<u32>,
) -> bool {
    match answer {
        Some(x) => low <= x < high && p.holds(x),
        None => none_passes(p, low, high),
    }
}

/// Extending a range by one number at its upper end adds that number to the
/// matches if it passes, and changes nothing else.
pub proof fn lemma_passing_step<P: Predicate>(p: &P, low: int, x: int)
    requires
        0 <= low <= x < 0x1_0000_0000,
    ensures
        passing(p, low, x + 1) == if p.holds(x as u32) {
            passing(p, low, x).push(x as u32)
        } else {
            passing(p, low, x)
        },
{
    assert(range_values(low, x + 1) =~= range_values(low, x).push(x as u32));
    Seq::lemma_filter_push(range_values(low, x), x as u32, test_of(p));
}

/// An empty range has no matches.
pub proof fn lemma_passing_empty<P: Predicate>(p: &P, low: int, high: int)
    requires
        high <= low,
    ensures
        passing(p, low, high) == Seq::<u32>::empty(),
{
    reveal(Seq::filter);
}

/// The matches of a range are those of its lower part followed by those of
/// its upper part, wherever the range is cut.
pub proof fn lemma_passing_split<P: Predicate>(p: &P, low: int, mid: int, high: int)
    requires
        0 <= low <= mid <= high <= 0x1_0000_0000,
    ensures
        passing(p, low, high) == passing(p, low, mid) + passing(p, mid, high),
{
    assert(range_values(low, high) =~= range_values(low, mid) + range_values(mid, high));
    Seq::filter_distributes_over_add(range_values(low, mid), range_values(mid, high), test_of(p));
}

/// Every match lies in the range and passes; every number of the range that
/// passes is a match; and the matches ascend strictly.
pub proof fn lemma_passing_exact<P: Predicate>(p: &P, low: int, high: int)
    requires
        0 <= low <= high <= 0x1_0000_0000,
    ensures
        passing(p, low, high).len() <= high - low,
        forall|i: int|
            0 <= i < passing(p, low, high).len() ==> low <= (#[trigger] passing(p, low, high)[i])
                < high && p.holds(passing(p, low, high)[i]),
        forall|x: u32| low <= x < high && p.holds(x) ==> passing(p, low, high).contains(x),
        forall|i: int, j: int|
            0 <= i < j < passing(p, low, high).len() ==> passing(p, low, high)[i] < passing(
                p,
                low,
                high,
            )[j],
    decreases high - low,
{
    if low == high {
        lemma_passing_empty(p, low, high);
    } else {
        lemma_passing_exact(p, low, high - 1);
        lemma_passing_step(p, low, high - 1);
        let before = passing(p, low, high - 1);
        let all = passing(p, low, high);
        let last = (high - 1) as u32;
        assert forall|x: u32| low <= x < high && p.holds(x) implies all.contains(x) by {
            if x == last {
                assert(all[all.len() - 1] == x);
            } else {
                let i = choose|i: int| 0 <= i < before.len() && before[i] == x;
                assert(all[i] == x);
            }
        }
    }
}

/// The listing of a range gives the ordinals 1, 2, 3, ... to the numbers that
/// pass, taken in ascending order: ordinals and values both ascend strictly,
/// every value listed lies in the range and passes, and every number of the
/// range that passes is listed.
pub proof fn lemma_listing_ordered<P: Predicate>(p: &P, low: int, high: int)
    requires
        0 <= low <= high <= u32::MAX,
    ensures
        ({
            let listing = numbered(passing(p, low, high), 1);
            &&& listing.len() == passing(p, low, high).len()
            &&& forall|i: int| 0 <= i < listing.len() ==> (#[trigger] listing[i]).0 == i + 1
            &&& forall|i: int, j: int|
                0 <= i < j < listing.len() ==> (#[trigger] listing[i]).0 < (#[trigger] listing[j]).0
                    && listing[i].1 < listing[j].1
            &&& forall|i: int|
                0 <= i < listing.len() ==> low <= (#[trigger] listing[i]).1 < high && p.holds(
                    listing[i].1,
                )
            &&& forall|x: u32|
                low <= x < high && p.holds(x) ==> exists|i: int|
                    0 <= i < listing.len() && (#[trigger] listing[i]).1 == x
        }),
{
    lemma_passing_exact(p, low, high);
    let found = passing(p, low, high);
    let listing = numbered(found, 1);
    assert forall|x: u32| low <= x < high && p.holds(x) implies exists|i: int|
        0 <= i < listing.len() && (#[trigger] listing[i]).1 == x by {
        let i = choose|i: int| 0 <= i < found.len() && found[i] == x;
        assert(listing[i].1 == x);
    }
}

/// Where one number of the range passes and no other, every right answer to
/// the search is that number; where none passes, every right answer is
/// `None`. So all strategies agree on such ranges.
pub proof fn lemma_unique_answer<P: Predicate>(
    p: &P,
    low: int,
    high: int,
    answer: Option<u32>,
)
    requires
        answers_search(p, low, high, answer),
    ensures
        none_passes(p, low, high) ==> answer is None,
        forall|x: u32|
            low <= x < high && p.holds(x) && (forall|y: u32|
                low <= y < high && #[trigger] p.holds(y) ==> y == x) ==> answer == Some(x),
{
}

} // verus!
