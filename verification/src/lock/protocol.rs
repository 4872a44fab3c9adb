//! The protocol of the lock as a state machine, and what holds of every
//! interleaving of its steps.
//!
//! A world is one flag, one counter that the flag guards, and some workers.
//! Each worker is to add one to the counter a number of times, and does so
//! under the lock: it swaps the flag from free to taken, reads the counter,
//! emits what it read and writes back one more, and frees the flag. Each of
//! these is one atomic step, and a schedule decides whose step comes next.

use vstd::prelude::*;

verus! {

/// What a worker does next.
#[derive(Clone, Copy, Debug, PartialEq, Eq, Structural)]
pub enum Stage {
    /// Swap the flag from free to taken.
    Swapping,
    /// Read the flag until it is seen free; the worker's last swap failed.
    Watching,
    /// Read the counter; the worker holds the lock.
    Reading,
    /// Write the counter; the worker holds the lock.
    Writing,
    /// Free the flag; the worker holds the lock.
    Releasing,
    /// Nothing; the worker has done all its rounds.
    Finished,
}

/// One worker.
pub struct Worker {
    pub stage: Stage,
    /// The rounds that the worker has not completed.
    pub rounds_left: nat,
    /// What the worker last read from the counter.
    pub seen: nat,
    /// Whether the worker, after a swap that failed, watches the flag
    /// before it swaps again.
    pub watches: bool,
}

/// The flag, the counter, what has been emitted, and the workers.
pub struct World {
    pub taken: bool,
    pub counter: nat,
    /// The numbers that the workers have emitted, in the order in which they
    /// did.
    pub emitted: Seq<nat>,
    pub workers: Seq<Worker>,
}

/// Whether a worker at this stage holds the lock.
pub open spec fn holds_lock(stage: Stage) -> bool {
    stage is Reading || stage is Writing || stage is Releasing
}

/// The stage of a worker with `rounds_left` rounds to go, as it sets out on
/// the next.
pub open spec fn next_round(rounds_left: nat) -> Stage {
    if rounds_left == 0 {
        Stage::Finished
    } else {
        Stage::Swapping
    }
}

/// Where a worker stands after its swap, which found the flag as `previous`
/// says and left it taken: in possession of the lock if the flag was free;
/// if not, watching or about to swap again, as is its habit.
pub open spec fn swap_outcome(previous: bool, watches: bool) -> Stage {
    if !previous {
        Stage::Reading
    } else if watches {
        Stage::Watching
    } else {
        Stage::Swapping
    }
}

/// Where a watching worker stands after a read of the flag: about to swap
/// if it saw the flag free, and still watching if not.
pub open spec fn watch_outcome(observed: bool) -> Stage {
    if observed {
        Stage::Watching
    } else {
        Stage::Swapping
    }
}

/// Decides what a worker does after its swap of the flag.
pub fn after_swap(previous: bool, watches: bool) -> (next: Stage)
    ensures
        next == swap_outcome(previous, watches),
{
    if !previous {
        Stage::Reading
    } else if watches {
        Stage::Watching
    } else {
        Stage::Swapping
    }
}

/// Decides what a watching worker does after a read of the flag.
pub fn after_watch(observed: bool) -> (next: Stage)
    ensures
        next == watch_outcome(observed),
{
    if observed {
        Stage::Watching
    } else {
        Stage::Swapping
    }
}

/// The world after worker `i` has taken its next step.
pub open spec fn step(w: World, i: int) -> World {
    let me = w.workers[i];
    match me.stage {
        Stage::Swapping => World {
            taken: true,
            workers: w.workers.update(
                i,
                Worker { stage: swap_outcome(w.taken, me.watches), ..me },
            ),
            ..w
        },
        Stage::Watching => World {
            workers: w.workers.update(i, Worker { stage: watch_outcome(w.taken), ..me }),
            ..w
        },
        Stage::Reading => World {
            workers: w.workers.update(i, Worker { stage: Stage::Writing, seen: w.counter, ..me }),
            ..w
        },
        Stage::Writing => World {
            counter: me.seen + 1,
            emitted: w.emitted.push(me.seen),
            workers: w.workers.update(i, Worker { stage: Stage::Releasing, ..me }),
            ..w
        },
        Stage::Releasing => World {
            taken: false,
            workers: w.workers.update(
                i,
                Worker {
                    stage: next_round((me.rounds_left - 1) as nat),
                    rounds_left: (me.rounds_left - 1) as nat,
                    ..me
                },
            ),
            ..w
        },
        Stage::Finished => w,
    }
}

/// Whether every entry of the schedule names a worker.
pub open spec fn fits(schedule: Seq<int>, workers: nat) -> bool {
    forall|k: int| 0 <= k < schedule.len() ==> 0 <= #[trigger] schedule[k] < workers
}

/// The world after the steps of `schedule`, taken in order.
pub open spec fn run(w: World, schedule: Seq<int>) -> World
    decreases schedule.len(),
{
    if schedule.len() == 0 {
        w
    } else {
        step(run(w, schedule.drop_last()), schedule.last())
    }
}

/// A world at its start: the flag free, the counter at 0, and `workers`
/// workers with `rounds` rounds each to do.
pub open spec fn fresh(workers: nat, rounds: nat, watches: bool) -> World {
    World {
        taken: false,
        counter: 0,
        emitted: Seq::empty(),
        workers: Seq::new(
            workers,
            |i: int| Worker { stage: next_round(rounds), rounds_left: rounds, seen: 0, watches },
        ),
    }
}

/// Whether every worker has done all its rounds.
pub open spec fn all_finished(w: World) -> bool {
    forall|i: int| 0 <= i < w.workers.len() ==> (#[trigger] w.workers[i]).stage is Finished
}

/// Whether at most one worker holds the lock, and the flag is taken if one
/// does.
pub open spec fn exclusive(w: World) -> bool {
    &&& forall|i: int, j: int|
        0 <= i < w.workers.len() && 0 <= j < w.workers.len() && i != j ==> !(holds_lock(
            (#[trigger] w.workers[i]).stage,
        ) && holds_lock((#[trigger] w.workers[j]).stage))
    &&& forall|i: int|
        0 <= i < w.workers.len() && holds_lock((#[trigger] w.workers[i]).stage) ==> w.taken
}

/// Whether the numbers emitted are 0, 1, 2, ... in this order: none twice,
/// none left out, none out of turn.
pub open spec fn in_sequence(emitted: Seq<nat>) -> bool {
    forall|k: int| 0 <= k < emitted.len() ==> #[trigger] emitted[k] == k
}

/// What a worker has yet to add to the counter: one for each round left,
/// less the one it has written and not yet signed off.
pub open spec fn owed(worker: Worker) -> int {
    if worker.stage is Releasing {
        worker.rounds_left - 1
    } else {
        worker.rounds_left as int
    }
}

/// What all the workers together have yet to add to the counter.
pub open spec fn owed_total(workers: Seq<Worker>) -> int
    decreases workers.len(),
{
    if workers.len() == 0 {
        0
    } else {
        owed_total(workers.drop_last()) + owed(workers.last())
    }
}

/// The invariant of the protocol, for a counter that is to reach `goal`: the
/// lock excludes; a worker about to write has read the counter as it now
/// stands; a worker has rounds left unless it has finished; the counter and
/// what is owed add up to the goal; and what was emitted are the numbers
/// below the counter, in sequence.
pub open spec fn consistent(w: World, goal: int) -> bool {
    &&& exclusive(w)
    &&& w.emitted.len() == w.counter
    &&& in_sequence(w.emitted)
    &&& forall|i: int|
        0 <= i < w.workers.len() && (#[trigger] w.workers[i]).stage is Writing
            ==> w.workers[i].seen == w.counter
    &&& forall|i: int|
        0 <= i < w.workers.len() ==> ((#[trigger] w.workers[i]).stage is Finished
            <==> w.workers[i].rounds_left == 0)
    &&& w.counter + owed_total(w.workers) == goal
}

/// Replacing one worker changes what is owed by the difference between the
/// two.
proof fn lemma_owed_update(workers: Seq<Worker>, i: int, worker: Worker)
    requires
        0 <= i < workers.len(),
    ensures
        owed_total(workers.update(i, worker)) == owed_total(workers) - owed(workers[i]) + owed(
            worker,
        ),
    decreases workers.len(),
{
    let changed = workers.update(i, worker);
    if i == workers.len() - 1 {
        assert(changed.drop_last() =~= workers.drop_last());
    } else {
        assert(changed.drop_last() =~= workers.drop_last().update(i, worker));
        lemma_owed_update(workers.drop_last(), i, worker);
    }
}

/// Workers that have finished owe nothing.
proof fn lemma_owed_finished(workers: Seq<Worker>)
    requires
        forall|i: int|
            0 <= i < workers.len() ==> (#[trigger] workers[i]).stage is Finished
                && workers[i].rounds_left == 0,
    ensures
        owed_total(workers) == 0,
    decreases workers.len(),
{
    if workers.len() > 0 {
        lemma_owed_finished(workers.drop_last());
    }
}

/// Workers at the start of `rounds` rounds owe `rounds` each.
proof fn lemma_owed_fresh(workers: nat, rounds: nat, watches: bool)
    ensures
        owed_total(fresh(workers, rounds, watches).workers) == workers * rounds,
    decreases workers,
{
    let all = fresh(workers, rounds, watches).workers;
    if workers == 0 {
        assert(workers * rounds == 0) by (nonlinear_arith)
            requires
                workers == 0,
        ;
    } else {
        assert(all.drop_last() =~= fresh((workers - 1) as nat, rounds, watches).workers);
        lemma_owed_fresh((workers - 1) as nat, rounds, watches);
        assert((workers - 1) * rounds + rounds == workers * rounds) by (nonlinear_arith);
    }
}

/// The world at its start is consistent, its goal being one addition for
/// each round of each worker.
pub proof fn lemma_fresh_consistent(workers: nat, rounds: nat, watches: bool)
    ensures
        consistent(fresh(workers, rounds, watches), (workers * rounds) as int),
{
    lemma_owed_fresh(workers, rounds, watches);
}

/// No step of any worker breaks the invariant.
pub proof fn lemma_step_consistent(w: World, i: int, goal: int)
    requires
        consistent(w, goal),
        0 <= i < w.workers.len(),
    ensures
        consistent(step(w, i), goal),
        step(w, i).workers.len() == w.workers.len(),
{
    lemma_owed_update(w.workers, i, step(w, i).workers[i]);
}

/// No schedule breaks the invariant.
pub proof fn lemma_run_consistent(w: World, schedule: Seq<int>, goal: int)
    requires
        consistent(w, goal),
        fits(schedule, w.workers.len()),
    ensures
        consistent(run(w, schedule), goal),
        run(w, schedule).workers.len() == w.workers.len(),
    decreases schedule.len(),
{
    if schedule.len() > 0 {
        let front = schedule.drop_last();
        lemma_run_consistent(w, front, goal);
        lemma_step_consistent(run(w, front), schedule.last(), goal);
    }
}

/// However the steps of the workers interleave, no two workers hold the
/// lock at once, what they emit is 0, 1, 2, ... in sequence, and when all
/// have finished the counter stands at the number of workers times the
/// number of rounds: no update is lost.
pub proof fn lemma_no_lost_update(workers: nat, rounds: nat, watches: bool, schedule: Seq<int>)
    requires
        fits(schedule, workers),
    ensures
        exclusive(run(fresh(workers, rounds, watches), schedule)),
        in_sequence(run(fresh(workers, rounds, watches), schedule).emitted),
        run(fresh(workers, rounds, watches), schedule).emitted.len() == run(
            fresh(workers, rounds, watches),
            schedule,
        ).counter,
        all_finished(run(fresh(workers, rounds, watches), schedule)) ==> run(
            fresh(workers, rounds, watches),
            schedule,
        ).counter == workers * rounds,
{
    let start = fresh(workers, rounds, watches);
    let end = run(start, schedule);
    lemma_fresh_consistent(workers, rounds, watches);
    lemma_run_consistent(start, schedule, (workers * rounds) as int);
    if all_finished(end) {
        lemma_owed_finished(end.workers);
    }
}

/// A release is all that it takes to let the next worker in: once the
/// holder has freed the flag, whoever swaps next holds the lock.
pub proof fn lemma_release_admits(w: World, holder: int, next: int, goal: int)
    requires
        consistent(w, goal),
        0 <= holder < w.workers.len(),
        0 <= next < w.workers.len(),
        holder != next,
        w.workers[holder].stage is Releasing,
        w.workers[next].stage is Swapping,
    ensures
        !step(w, holder).taken,
        holds_lock(step(step(w, holder), next).workers[next].stage),
        !holds_lock(step(step(w, holder), next).workers[holder].stage),
{
}

/// What a worker of the naive lock does next: it reads the flag in one step
/// and sets it in another.
pub enum NaiveStage {
    /// Read the flag.
    Checking,
    /// Set the flag; the worker's read saw it free.
    Setting,
    /// Nothing; the worker holds the lock.
    Holding,
}

/// The flag and the workers of the naive lock after worker `i` has taken its
/// next step.
pub open spec fn naive_step(taken: bool, stages: Seq<NaiveStage>, i: int) -> (bool, Seq<
    NaiveStage,
>) {
    match stages[i] {
        NaiveStage::Checking => if taken {
            (taken, stages)
        } else {
            (taken, stages.update(i, NaiveStage::Setting))
        },
        NaiveStage::Setting => (true, stages.update(i, NaiveStage::Holding)),
        NaiveStage::Holding => (taken, stages),
    }
}

/// Why the flag is swapped in one step: where it is read in one step and set
/// in another, two workers that both read before either sets both get in.
pub proof fn lemma_check_then_set_admits_two()
    ensures
        ({
            let start = (false, seq![NaiveStage::Checking, NaiveStage::Checking]);
            let one = naive_step(start.0, start.1, 0);
            let two = naive_step(one.0, one.1, 1);
            let three = naive_step(two.0, two.1, 0);
            let four = naive_step(three.0, three.1, 1);
            four.1[0] is Holding && four.1[1] is Holding
        }),
{
}

} // verus!
