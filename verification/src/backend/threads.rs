//! The partitioned strategy: the range is cut into as many chunks as there are
//! workers, each chunk is evaluated by itself, and the partial results are
//! combined in the order of the chunks.

use vstd::prelude::*;
use crate::backend::sequential::{count_range, find_range, list_range};
use crate::backend::signal::SearchSignal;
use crate::backend::{
    answers_search, lemma_passing_exact, lemma_passing_split, none_passes, numbered, passing,
    Backend, Predicate,
};
use crate::settings::Settings;

verus! {

/// A half-open interval of numbers, `low` included and `high` not.
#[derive(Clone, Copy, Debug, PartialEq, Eq, Structural)]
pub struct Range {
    pub low: u32,
    pub high: u32,
}

impl Range {
    /// The bounds are in order.
    pub open spec fn wf(&self) -> bool {
        self.low <= self.high
    }

    /// How many numbers the interval holds.
    pub open spec fn size(&self) -> int {
        self.high - self.low
    }
}

/// The width of every chunk but the last, when `[low, high)` is cut into
/// `chunks` chunks.
pub open spec fn chunk_width(low: int, high: int, chunks: int) -> int {
    (high - low) / chunks
}

/// Where chunk `i` begins.
pub open spec fn chunk_low(low: int, high: int, chunks: int, i: int) -> int {
    low + chunk_width(low, high, chunks) * i
}

/// Where chunk `i` ends: the last chunk runs up to `high` and so takes in the
/// remainder of the division.
pub open spec fn chunk_high(low: int, high: int, chunks: int, i: int) -> int {
    if i == chunks - 1 {
        high
    } else {
        low + chunk_width(low, high, chunks) * (i + 1)
    }
}

/// Whether `parts` is the cut of `[low, high)` into `chunks` chunks.
pub open spec fn is_split(parts: Seq<Range>, low: int, high: int, chunks: int) -> bool {
    &&& parts.len() == chunks
    &&& forall|i: int|
        0 <= i < chunks ==> (#[trigger] parts[i]).low == chunk_low(low, high, chunks, i)
            && parts[i].high == chunk_high(low, high, chunks, i)
}

/// Whether `parts` divides `[low, high)`: it begins at `low`, ends at `high`,
/// and each part begins where the one before it ends.
pub open spec fn is_partition(parts: Seq<Range>, low: int, high: int) -> bool {
    &&& parts.len() >= 1
    &&& parts[0].low == low
    &&& parts[parts.len() - 1].high == high
    &&& forall|i: int| 0 <= i < parts.len() ==> (#[trigger] parts[i]).wf()
    &&& forall|i: int| 0 <= i < parts.len() - 1 ==> (#[trigger] parts[i]).high == parts[i + 1].low
}

/// The sizes of the parts, added up.
pub open spec fn total_size(parts: Seq<Range>) -> int
    decreases parts.len(),
{
    if parts.len() == 0 {
        0
    } else {
        total_size(parts.drop_last()) + parts.last().size()
    }
}

/// The bounds of every chunk lie between `low` and `high`, in order.
proof fn lemma_chunk_bounds(low: int, high: int, chunks: int, i: int)
    requires
        low <= high,
        1 <= chunks,
        0 <= i < chunks,
    ensures
        low <= chunk_low(low, high, chunks, i) <= chunk_high(low, high, chunks, i) <= high,
        i < chunks - 1 ==> chunk_high(low, high, chunks, i) == chunk_low(low, high, chunks, i + 1),
        chunk_low(low, high, chunks, 0) == low,
{
    let width = chunk_width(low, high, chunks);
    let span = high - low;
    assert(0 <= width && width * chunks <= span) by (nonlinear_arith)
        requires
            width == span / chunks,
            0 <= span,
            1 <= chunks,
    ;
    assert(0 <= width * i && width * i + width == width * (i + 1) && width * (i + 1) <= width
        * chunks) by (nonlinear_arith)
        requires
            0 <= width,
            0 <= i < chunks,
    ;
}

/// Cuts `[low, high)` into `chunks` chunks of equal width, the last one taking
/// in what the division leaves over. With more chunks than numbers, chunks are
/// empty.
pub fn split_ranges(low: u32, high: u32, chunks: u32) -> (parts: Vec<Range>)
    requires
        chunks >= 1,
        low <= high,
    ensures
        is_split(parts@, low as int, high as int, chunks as int),
{
    let delta: u32 = (high - low) / chunks;
    let mut parts: Vec<Range> = Vec::new();
    let mut i: u32 = 0;
    while i < chunks
        invariant
            i <= chunks,
            chunks >= 1,
            low <= high,
            delta == chunk_width(low as int, high as int, chunks as int),
            parts@.len() == i,
            forall|j: int|
                0 <= j < i ==> (#[trigger] parts@[j]).low == chunk_low(
                    low as int,
                    high as int,
                    chunks as int,
                    j,
                ) && parts@[j].high == chunk_high(low as int, high as int, chunks as int, j),
        decreases chunks - i,
    {
        proof {
            lemma_chunk_bounds(low as int, high as int, chunks as int, i as int);
        }
        let start: u32 = low + delta * i;
        let part = if i == chunks - 1 {
            Range { low: start, high }
        } else {
            Range { low: start, high: low + delta * (1 + i) }
        };
        parts.push(part);
        i += 1;
    }
    parts
}

/// The cut that `split_ranges` makes divides the range.
pub proof fn lemma_split_is_partition(parts: Seq<Range>, low: int, high: int, chunks: int)
    requires
        0 <= low <= high,
        1 <= chunks,
        is_split(parts, low, high, chunks),
    ensures
        is_partition(parts, low, high),
{
    assert forall|i: int| 0 <= i < parts.len() implies (#[trigger] parts[i]).wf() by {
        lemma_chunk_bounds(low, high, chunks, i);
    }
    assert forall|i: int| 0 <= i < parts.len() - 1 implies (#[trigger] parts[i]).high == parts[i
        + 1].low by {
        lemma_chunk_bounds(low, high, chunks, i);
    }
    lemma_chunk_bounds(low, high, chunks, 0);
}

/// The parts before the last still divide what lies below the last part.
proof fn lemma_partition_drop_last(parts: Seq<Range>, low: int, high: int)
    requires
        is_partition(parts, low, high),
        parts.len() >= 2,
    ensures
        is_partition(parts.drop_last(), low, parts.last().low as int),
{
}

/// The parts of a partition are in ascending order and share no number; their
/// sizes add up to the size of the whole: nothing is dropped, nothing counted
/// twice.
pub proof fn lemma_partition_exact(parts: Seq<Range>, low: int, high: int)
    requires
        is_partition(parts, low, high),
    ensures
        low <= high,
        total_size(parts) == high - low,
        forall|i: int| 0 <= i < parts.len() ==> low <= (#[trigger] parts[i]).low && parts[i].high <= high,
        forall|i: int, j: int|
            0 <= i < j < parts.len() ==> (#[trigger] parts[i]).high <= (#[trigger] parts[j]).low,
    decreases parts.len(),
{
    if parts.len() == 1 {
        assert(total_size(parts.drop_last()) == 0);
    } else {
        let front = parts.drop_last();
        lemma_partition_drop_last(parts, low, high);
        lemma_partition_exact(front, low, parts.last().low as int);
        assert forall|i: int, j: int| 0 <= i < j < parts.len() implies (#[trigger] parts[i]).high
            <= (#[trigger] parts[j]).low by {
            if j < parts.len() - 1 {
                assert(front[i].high <= front[j].low);
            }
        }
    }
}

/// Whatever the number of chunks, the cut neither drops a number nor takes
/// one twice: the chunks are in order, no two of them overlap, and their
/// sizes add up to the size of the range.
pub proof fn lemma_split_exact(parts: Seq<Range>, low: int, high: int, chunks: int)
    requires
        0 <= low <= high,
        1 <= chunks,
        is_split(parts, low, high, chunks),
    ensures
        total_size(parts) == high - low,
        forall|i: int| 0 <= i < parts.len() ==> (#[trigger] parts[i]).wf(),
        forall|i: int| 0 <= i < parts.len() ==> low <= (#[trigger] parts[i]).low && parts[i].high <= high,
        forall|i: int, j: int|
            0 <= i < j < parts.len() ==> (#[trigger] parts[i]).high <= (#[trigger] parts[j]).low,
{
    lemma_split_is_partition(parts, low, high, chunks);
    lemma_partition_exact(parts, low, high);
}

/// The counts, added up.
pub open spec fn total(counts: Seq<u32>) -> int
    decreases counts.len(),
{
    if counts.len() == 0 {
        0
    } else {
        total(counts.drop_last()) + counts.last()
    }
}

/// The lists, one after the other.
pub open spec fn joined(lists: Seq<Seq<u32>>) -> Seq<u32>
    decreases lists.len(),
{
    if lists.len() == 0 {
        Seq::empty()
    } else {
        joined(lists.drop_last()) + lists.last()
    }
}

/// Adds up the counts that the workers hand in; `None` where the sum does
/// not fit.
pub fn sum_counts(counts: &Vec<u32>) -> (sum: Option<u32>)
    ensures
        match sum {
            Some(n) => n == total(counts@),
            None => total(counts@) > u32::MAX,
        },
{
    let mut sum: u32 = 0;
    let mut i: usize = 0;
    while i < counts.len()
        invariant
            i <= counts.len(),
            sum == total(counts@.take(i as int)),
        decreases counts.len() - i,
    {
        proof {
            assert(counts@.take(i + 1).drop_last() =~= counts@.take(i as int));
            lemma_total_grows(counts@, i + 1);
        }
        match sum.checked_add(counts[i]) {
            Some(more) => {
                sum = more;
            },
            None => {
                return None;
            },
        }
        i += 1;
    }
    assert(counts@.take(i as int) =~= counts@);
    Some(sum)
}

/// The sum of a front part of the counts is at most the sum of them all.
proof fn lemma_total_grows(counts: Seq<u32>, n: int)
    requires
        0 <= n <= counts.len(),
    ensures
        0 <= total(counts.take(n)) <= total(counts),
    decreases counts.len() - n,
{
    if n == counts.len() {
        assert(counts.take(n) =~= counts);
        lemma_total_nonnegative(counts);
    } else {
        lemma_total_grows(counts, n + 1);
        assert(counts.take(n + 1).drop_last() =~= counts.take(n));
        lemma_total_nonnegative(counts.take(n));
    }
}

/// A sum of counts is never negative.
proof fn lemma_total_nonnegative(counts: Seq<u32>)
    ensures
        0 <= total(counts),
    decreases counts.len(),
{
    if counts.len() > 0 {
        lemma_total_nonnegative(counts.drop_last());
    }
}

/// Puts the lists that the workers hand in one after the other, in the order
/// of the chunks, and numbers the values from 1; `None` where there are more
/// values than ordinals.
pub fn merge_lists(lists: &Vec<Vec<u32>>) -> (listing: Option<Vec<(u32, u32)>>)
    ensures
        match listing {
            Some(pairs) => pairs@ == numbered(joined(lists.deep_view()), 1),
            None => joined(lists.deep_view()).len() > u32::MAX,
        },
{
    let mut listing: Vec<(u32, u32)> = Vec::new();
    let mut i: usize = 0;
    let ghost all = lists.deep_view();
    while i < lists.len()
        invariant
            i <= lists.len(),
            all == lists.deep_view(),
            all.len() == lists.len(),
            joined(all.take(i as int)).len() <= u32::MAX,
            listing@ == numbered(joined(all.take(i as int)), 1),
        decreases lists.len() - i,
    {
        let list = &lists[i];
        let ghost before = joined(all.take(i as int));
        proof {
            assert(all.take(i + 1).drop_last() =~= all.take(i as int));
            lemma_joined_grows(all, i + 1);
        }
        let mut k: usize = 0;
        while k < list.len()
            invariant
                k <= list.len(),
                before.len() + k <= u32::MAX,
                before + list@ == joined(all.take(i + 1)),
                joined(all.take(i + 1)).len() <= joined(all).len(),
                all == lists.deep_view(),
                listing@ == numbered(before + list@.take(k as int), 1),
            decreases list.len() - k,
        {
            if listing.len() >= 0xffff_ffff {
                return None;
            }
            let ordinal: u32 = (listing.len() + 1) as u32;
            listing.push((ordinal, list[k]));
            k += 1;
        }
        i += 1;
    }
    assert(all.take(i as int) =~= all);
    Some(listing)
}

/// A front part of the lists joins to no more than all of them.
proof fn lemma_joined_grows(lists: Seq<Seq<u32>>, n: int)
    requires
        0 <= n <= lists.len(),
    ensures
        joined(lists.take(n)).len() <= joined(lists).len(),
    decreases lists.len() - n,
{
    if n == lists.len() {
        assert(lists.take(n) =~= lists);
    } else {
        lemma_joined_grows(lists, n + 1);
        assert(lists.take(n + 1).drop_last() =~= lists.take(n));
    }
}

/// Whatever the number of chunks, the partial counts add up to the count of
/// the whole range.
pub proof fn lemma_partition_counts<P: Predicate>(
    p: &P,
    parts: Seq<Range>,
    low: int,
    high: int,
    counts: Seq<u32>,
)
    requires
        is_partition(parts, low, high),
        counts.len() == parts.len(),
        forall|i: int|
            0 <= i < parts.len() ==> (#[trigger] counts[i]) == passing(
                p,
                parts[i].low as int,
                parts[i].high as int,
            ).len(),
    ensures
        total(counts) == passing(p, low, high).len(),
    decreases parts.len(),
{
    lemma_partition_exact(parts, low, high);
    let last = parts.last();
    if parts.len() == 1 {
        assert(total(counts.drop_last()) == 0);
    } else {
        lemma_partition_drop_last(parts, low, high);
        let front = counts.drop_last();
        lemma_partition_counts(p, parts.drop_last(), low, last.low as int, front);
        lemma_passing_split(p, low, last.low as int, high);
    }
}

/// Whatever the number of chunks, the lists of the chunks, joined in the
/// order of the chunks, are the matches of the whole range in ascending order.
pub proof fn lemma_partition_lists<P: Predicate>(
    p: &P,
    parts: Seq<Range>,
    low: int,
    high: int,
    lists: Seq<Seq<u32>>,
)
    requires
        is_partition(parts, low, high),
        lists.len() == parts.len(),
        forall|i: int|
            0 <= i < parts.len() ==> (#[trigger] lists[i]) == passing(
                p,
                parts[i].low as int,
                parts[i].high as int,
            ),
    ensures
        joined(lists) == passing(p, low, high),
    decreases parts.len(),
{
    lemma_partition_exact(parts, low, high);
    let last = parts.last();
    if parts.len() == 1 {
        assert(joined(lists.drop_last()) =~= Seq::<u32>::empty());
    } else {
        lemma_partition_drop_last(parts, low, high);
        let front = lists.drop_last();
        lemma_partition_lists(p, parts.drop_last(), low, last.low as int, front);
        lemma_passing_split(p, low, last.low as int, high);
    }
}

/// How the search of one chunk ended.
#[derive(Clone, Copy, Debug, PartialEq, Eq, Structural)]
pub enum ChunkOutcome {
    /// The worker found this number and recorded it.
    Found(u32),
    /// The worker tried every number of its chunk and none qualified.
    Exhausted,
    /// The worker saw the signal set and stopped before the end of its chunk.
    Stopped,
}

/// What the outcomes of all chunks say of the whole range.
#[derive(Clone, Copy, Debug, PartialEq, Eq, Structural)]
pub enum Verdict {
    /// A worker found this number.
    Found(u32),
    /// Every chunk was tried to its end and nothing qualified.
    Absent,
    /// No worker found a number, and at least one stopped early.
    Open,
}

/// Whether `outcome` tells the truth about the chunk `[low, high)`.
pub open spec fn outcome_holds<P: Predicate>(
    p: &P,
    low: int,
    high: int,
    outcome: ChunkOutcome,
) -> bool {
    match outcome {
        ChunkOutcome::Found(x) => low <= x < high && p.holds(x),
        ChunkOutcome::Exhausted => none_passes(p, low, high),
        ChunkOutcome::Stopped => true,
    }
}

/// The verdict on the outcomes: the first found number, in the order of the
/// chunks; without one, `Absent` only if every chunk was exhausted.
pub open spec fn verdict_of(outcomes: Seq<ChunkOutcome>) -> Verdict
    decreases outcomes.len(),
{
    if outcomes.len() == 0 {
        Verdict::Absent
    } else {
        match verdict_of(outcomes.drop_last()) {
            Verdict::Found(x) => Verdict::Found(x),
            Verdict::Absent => match outcomes.last() {
                ChunkOutcome::Found(x) => Verdict::Found(x),
                ChunkOutcome::Exhausted => Verdict::Absent,
                ChunkOutcome::Stopped => Verdict::Open,
            },
            Verdict::Open => match outcomes.last() {
                ChunkOutcome::Found(x) => Verdict::Found(x),
                _ => Verdict::Open,
            },
        }
    }
}

/// What a worker makes of the candidate `x`, having read the signal just
/// before: it stops if the read saw the signal set, without a test of `x`; it
/// has found `x` if `x` passes; and otherwise it goes on to the next number,
/// which `None` stands for.
pub open spec fn candidate_outcome<P: Predicate>(p: &P, x: u32, seen_set: bool) -> Option<
    ChunkOutcome,
> {
    if seen_set {
        Some(ChunkOutcome::Stopped)
    } else if p.holds(x) {
        Some(ChunkOutcome::Found(x))
    } else {
        None
    }
}

/// Decides what a worker makes of the candidate `x`, having read the signal
/// just before.
pub fn try_candidate<P: Predicate>(p: &P, x: u32, seen_set: bool) -> (outcome: Option<
    ChunkOutcome,
>)
    ensures
        outcome == candidate_outcome(p, x, seen_set),
{
    if seen_set {
        Some(ChunkOutcome::Stopped)
    } else if p.test(x) {
        Some(ChunkOutcome::Found(x))
    } else {
        None
    }
}

/// The work of one worker of a search: tries the numbers of `[low, high)` in
/// ascending order, reads the signal before each, gives up as soon as a read
/// sees the signal set, and records the first number that passes. A chunk
/// without numbers is exhausted before the signal is read at all.
pub fn search_chunk<P: Predicate>(
    p: &P,
    low: u32,
    high: u32,
    signal: &SearchSignal,
) -> (outcome: ChunkOutcome)
    ensures
        outcome_holds(p, low as int, high as int, outcome),
        outcome matches ChunkOutcome::Found(x) ==> none_passes(p, low as int, x as int),
        high <= low ==> outcome is Exhausted,
{
    let mut x: u32 = low;
    while x < high
        invariant
            low <= x,
            none_passes(p, low as int, x as int),
        decreases high - x,
    {
        match try_candidate(p, x, signal.is_set()) {
            Some(ChunkOutcome::Found(found)) => {
                signal.record(found);
                return ChunkOutcome::Found(found);
            },
            Some(outcome) => {
                return outcome;
            },
            None => {},
        }
        x += 1;
    }
    ChunkOutcome::Exhausted
}

/// Draws the verdict from the outcomes that the workers hand in.
pub fn conclude(outcomes: &Vec<ChunkOutcome>) -> (verdict: Verdict)
    ensures
        verdict == verdict_of(outcomes@),
{
    let mut verdict = Verdict::Absent;
    let mut i: usize = 0;
    while i < outcomes.len()
        invariant
            i <= outcomes.len(),
            verdict == verdict_of(outcomes@.take(i as int)),
            !(verdict is Found),
        decreases outcomes.len() - i,
    {
        assert(outcomes@.take(i + 1).drop_last() =~= outcomes@.take(i as int));
        match outcomes[i] {
            ChunkOutcome::Found(x) => {
                proof {
                    lemma_verdict_stays(outcomes@, i + 1);
                }
                return Verdict::Found(x);
            },
            ChunkOutcome::Exhausted => {},
            ChunkOutcome::Stopped => {
                verdict = Verdict::Open;
            },
        }
        i += 1;
    }
    assert(outcomes@.take(i as int) =~= outcomes@);
    verdict
}

/// Once a front part of the outcomes holds a found number, later outcomes
/// change nothing.
proof fn lemma_verdict_stays(outcomes: Seq<ChunkOutcome>, n: int)
    requires
        0 <= n <= outcomes.len(),
        verdict_of(outcomes.take(n)) is Found,
    ensures
        verdict_of(outcomes) == verdict_of(outcomes.take(n)),
    decreases outcomes.len() - n,
{
    if n == outcomes.len() {
        assert(outcomes.take(n) =~= outcomes);
    } else {
        assert(outcomes.take(n + 1).drop_last() =~= outcomes.take(n));
        lemma_verdict_stays(outcomes, n + 1);
    }
}

/// Whatever the number of chunks and however the workers were scheduled: a
/// found number is a right answer for the whole range, and `Absent` is
/// drawn only where the range holds nothing that qualifies.
pub proof fn lemma_partition_verdict<P: Predicate>(
    p: &P,
    parts: Seq<Range>,
    low: int,
    high: int,
    outcomes: Seq<ChunkOutcome>,
)
    requires
        is_partition(parts, low, high),
        outcomes.len() == parts.len(),
        forall|i: int|
            0 <= i < parts.len() ==> outcome_holds(
                p,
                parts[i].low as int,
                parts[i].high as int,
                #[trigger] outcomes[i],
            ),
    ensures
        verdict_of(outcomes) matches Verdict::Found(x) ==> low <= x < high && p.holds(x),
        verdict_of(outcomes) is Absent ==> none_passes(p, low, high),
    decreases parts.len(),
{
    lemma_partition_exact(parts, low, high);
    let last = parts.last();
    if parts.len() == 1 {
        assert(verdict_of(outcomes.drop_last()) is Absent);
    } else {
        lemma_partition_drop_last(parts, low, high);
        let front = outcomes.drop_last();
        lemma_partition_verdict(p, parts.drop_last(), low, last.low as int, front);
    }
}

/// Counts the numbers of `[low, high)` that pass `p`, chunk by chunk.
pub fn count_chunks<P: Predicate>(p: &P, low: u32, high: u32, chunks: u32) -> (count: u32)
    requires
        chunks >= 1,
        low <= high,
    ensures
        count == passing(p, low as int, high as int).len(),
{
    let parts = split_ranges(low, high, chunks);
    let mut counts: Vec<u32> = Vec::new();
    let mut i: usize = 0;
    while i < parts.len()
        invariant
            i <= parts.len(),
            counts@.len() == i,
            forall|j: int|
                0 <= j < i ==> (#[trigger] counts@[j]) == passing(
                    p,
                    parts@[j].low as int,
                    parts@[j].high as int,
                ).len(),
        decreases parts.len() - i,
    {
        counts.push(count_range(p, parts[i].low, parts[i].high));
        i += 1;
    }
    proof {
        lemma_split_is_partition(parts@, low as int, high as int, chunks as int);
        lemma_partition_counts(p, parts@, low as int, high as int, counts@);
        lemma_passing_exact(p, low as int, high as int);
    }
    match sum_counts(&counts) {
        Some(count) => count,
        None => vstd::pervasive::unreached(),
    }
}

/// Lists the numbers of `[low, high)` that pass `p`, chunk by chunk: in
/// ascending order, each with its ordinal, counted from 1.
pub fn enumerate_chunks<P: Predicate>(p: &P, low: u32, high: u32, chunks: u32) -> (listing: Vec<
    (u32, u32),
>)
    requires
        chunks >= 1,
        low <= high,
    ensures
        listing@ == numbered(passing(p, low as int, high as int), 1),
{
    let parts = split_ranges(low, high, chunks);
    let mut lists: Vec<Vec<u32>> = Vec::new();
    let mut i: usize = 0;
    while i < parts.len()
        invariant
            i <= parts.len(),
            lists@.len() == i,
            forall|j: int|
                0 <= j < i ==> (#[trigger] lists@[j])@ == passing(
                    p,
                    parts@[j].low as int,
                    parts@[j].high as int,
                ),
        decreases parts.len() - i,
    {
        lists.push(list_range(p, parts[i].low, parts[i].high));
        i += 1;
    }
    proof {
        let views = lists.deep_view();
        assert forall|j: int| 0 <= j < parts@.len() implies (#[trigger] views[j]) == passing(
            p,
            parts@[j].low as int,
            parts@[j].high as int,
        ) by {
        }
        lemma_split_is_partition(parts@, low as int, high as int, chunks as int);
        lemma_partition_lists(p, parts@, low as int, high as int, views);
        lemma_passing_exact(p, low as int, high as int);
    }
    match merge_lists(&lists) {
        Some(listing) => listing,
        None => vstd::pervasive::unreached(),
    }
}

/// Searches `[low, high)` for a number that passes `p`, chunk by chunk, the
/// workers sharing one signal.
pub fn search_chunks<P: Predicate>(p: &P, low: u32, high: u32, chunks: u32) -> (answer: Option<
    u32,
>)
    requires
        chunks >= 1,
        low <= high,
    ensures
        answers_search(p, low as int, high as int, answer),
{
    let parts = split_ranges(low, high, chunks);
    let signal = SearchSignal::new();
    let mut outcomes: Vec<ChunkOutcome> = Vec::new();
    let mut i: usize = 0;
    while i < parts.len()
        invariant
            i <= parts.len(),
            outcomes@.len() == i,
            forall|j: int|
                0 <= j < i ==> outcome_holds(
                    p,
                    parts@[j].low as int,
                    parts@[j].high as int,
                    #[trigger] outcomes@[j],
                ),
        decreases parts.len() - i,
    {
        outcomes.push(search_chunk(p, parts[i].low, parts[i].high, &signal));
        i += 1;
    }
    proof {
        lemma_split_is_partition(parts@, low as int, high as int, chunks as int);
        lemma_partition_verdict(p, parts@, low as int, high as int, outcomes@);
    }
    settle(p, low, high, conclude(&outcomes), &signal)
}

/// The answer of a search from the verdict of its workers. An open verdict
/// settles nothing: the number on the signal is then taken if it stands the
/// test, and failing that the range is searched once more, in one pass.
pub fn settle<P: Predicate>(
    p: &P,
    low: u32,
    high: u32,
    verdict: Verdict,
    signal: &SearchSignal,
) -> (answer: Option<u32>)
    ensures
        verdict matches Verdict::Found(x) ==> answer == Some(x),
        verdict is Absent ==> answer is None,
        verdict is Open ==> answers_search(p, low as int, high as int, answer),
{
    match verdict {
        Verdict::Found(x) => Some(x),
        Verdict::Absent => None,
        Verdict::Open => {
            match signal.get() {
                Some(x) => {
                    if low <= x && x < high && p.test(x) {
                        Some(x)
                    } else {
                        find_range(p, low, high)
                    }
                },
                None => find_range(p, low, high),
            }
        },
    }
}

/// The strategy of one worker to the chunk. The workers of this type run one
/// after the other on the caller's thread; a caller that has threads runs
/// `count_range`, `list_range` and `search_chunk` on them and hands what they
/// return to `sum_counts`, `merge_lists` and `conclude`.
#[derive(Clone, Copy, Debug)]
pub struct ThreadBackend;

impl Backend for ThreadBackend {
    fn run_count(&self, settings: &Settings) -> (count: u32) {
        count_chunks(&settings.checksum(), settings.bottom, settings.top, settings.threads)
    }

    fn run_list(&self, settings: &Settings) -> (listing: Vec<(u32, u32)>) {
        enumerate_chunks(&settings.checksum(), settings.bottom, settings.top, settings.threads)
    }

    fn run_search(&self, settings: &Settings, hash: Box<[u8; 20]>) -> (answer: Option<u32>) {
        search_chunks(&settings.preimage(*hash), settings.bottom, settings.top, settings.threads)
    }
}

} // verus!
