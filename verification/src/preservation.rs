//! Every step a pool can take keeps its invariant.

use vstd::prelude::*;
use vstd::multiset::{lemma_multiset_empty_len, Multiset};
use vstd::seq_lib::{to_multiset_build, to_multiset_len};
use crate::signal::Signal;
use crate::state::{counts, exited, in_flight, live, tally, PoolState};
use crate::worker::Worker;

verus! {

/// No more workers are counted than there are, and none is counted both as
/// running and as having left.
pub proof fn lemma_tally_bounds(workers: Seq<Worker>)
    ensures
        live(workers) + exited(workers) <= workers.len(),
    decreases workers.len(),
{
    if workers.len() > 0 {
        lemma_tally_bounds(workers.drop_last());
    }
}

/// Replacing one worker changes a count by that worker's share in it.
pub proof fn lemma_tally_update(workers: Seq<Worker>, i: int, worker: Worker, running: bool)
    requires
        0 <= i < workers.len(),
    ensures
        tally(workers.update(i, worker), running) + (if counts(workers[i], running) {
            1nat
        } else {
            0nat
        }) == tally(workers, running) + (if counts(worker, running) {
            1nat
        } else {
            0nat
        }),
    decreases workers.len(),
{
    let updated = workers.update(i, worker);
    if i == workers.len() - 1 {
        assert(updated.drop_last() =~= workers.drop_last());
    } else {
        assert(updated.drop_last() =~= workers.drop_last().update(i, worker));
        lemma_tally_update(workers.drop_last(), i, worker, running);
    }
}

/// A count is zero exactly when no worker is counted.
pub proof fn lemma_tally_zero(workers: Seq<Worker>, running: bool)
    ensures
        tally(workers, running) == 0 <==> forall|i: int|
            0 <= i < workers.len() ==> !counts(#[trigger] workers[i], running),
    decreases workers.len(),
{
    if workers.len() > 0 {
        let front = workers.drop_last();
        lemma_tally_zero(front, running);
        if tally(workers, running) == 0 {
            assert forall|i: int| 0 <= i < workers.len() implies !counts(
                #[trigger] workers[i],
                running,
            ) by {
                if i < front.len() {
                    assert(front[i] == workers[i]);
                }
            }
        } else if !counts(workers.last(), running) {
            let i = choose|i: int| 0 <= i < front.len() && counts(#[trigger] front[i], running);
            assert(workers[i] == front[i]);
        }
    }
}

/// A count equals the number of workers exactly when every worker is
/// counted.
pub proof fn lemma_tally_full(workers: Seq<Worker>, running: bool)
    ensures
        tally(workers, running) <= workers.len(),
        tally(workers, running) == workers.len() <==> forall|i: int|
            0 <= i < workers.len() ==> counts(#[trigger] workers[i], running),
    decreases workers.len(),
{
    if workers.len() > 0 {
        let front = workers.drop_last();
        lemma_tally_full(front, running);
        if tally(workers, running) == workers.len() {
            assert forall|i: int| 0 <= i < workers.len() implies counts(
                #[trigger] workers[i],
                running,
            ) by {
                if i < front.len() {
                    assert(front[i] == workers[i]);
                }
            }
        } else if counts(workers.last(), running) {
            let i = choose|i: int| 0 <= i < front.len() && !counts(#[trigger] front[i], running);
            assert(workers[i] == front[i]);
        }
    }
}

/// Replacing what one worker is running replaces that job among the jobs
/// in flight.
pub proof fn lemma_in_flight_update<J>(jobs: Seq<Option<J>>, i: int, job: Option<J>)
    requires
        0 <= i < jobs.len(),
    ensures
        in_flight(jobs.update(i, job)) =~= (match job {
            Some(new) => match jobs[i] {
                Some(old) => in_flight(jobs).remove(old).insert(new),
                None => in_flight(jobs).insert(new),
            },
            None => match jobs[i] {
                Some(old) => in_flight(jobs).remove(old),
                None => in_flight(jobs),
            },
        }),
        jobs[i] matches Some(old) ==> in_flight(jobs).count(old) > 0,
    decreases jobs.len(),
{
    let updated = jobs.update(i, job);
    if i == jobs.len() - 1 {
        assert(updated.drop_last() =~= jobs.drop_last());
    } else {
        assert(updated.drop_last() =~= jobs.drop_last().update(i, job));
        lemma_in_flight_update(jobs.drop_last(), i, job);
    }
}

/// No job is in flight exactly when no worker is running one.
pub proof fn lemma_in_flight_none<J>(jobs: Seq<Option<J>>)
    ensures
        in_flight(jobs).len() == 0 <==> forall|i: int|
            0 <= i < jobs.len() ==> (#[trigger] jobs[i]) is None,
    decreases jobs.len(),
{
    if jobs.len() > 0 {
        let front = jobs.drop_last();
        lemma_in_flight_none(front);
        if in_flight(jobs).len() == 0 {
            assert forall|i: int| 0 <= i < jobs.len() implies (#[trigger] jobs[i]) is None by {
                if i < front.len() {
                    assert(front[i] == jobs[i]);
                }
            }
        } else if jobs.last() is None {
            let i = choose|i: int| 0 <= i < front.len() && (#[trigger] front[i]) is Some;
            assert(jobs[i] == front[i]);
        }
    }
}

/// A sequence without elements holds no element, counted as often as one
/// likes.
pub proof fn lemma_empty_to_multiset<J>(jobs: Seq<J>)
    requires
        jobs.len() == 0,
    ensures
        jobs.to_multiset() =~= Multiset::empty(),
{
    to_multiset_len(jobs);
    lemma_multiset_empty_len(jobs.to_multiset());
}

/// A step that loses no job and lets no failed worker recover keeps what
/// the invariant says of lost jobs.
proof fn lemma_lost_with_worker<J>(s: PoolState<J>, t: PoolState<J>)
    requires
        s.inv(),
        t.size() == s.size(),
        forall|i: int|
            0 <= i < s.size() ==> (#[trigger] s.workers[i]).failed ==> t.workers[i].failed,
        t.lost == s.lost,
    ensures
        (forall|i: int| 0 <= i < t.size() ==> !(#[trigger] t.workers[i]).failed) ==> t.lost.len()
            == 0,
{
    if forall|i: int| 0 <= i < t.size() ==> !(#[trigger] t.workers[i]).failed {
        assert forall|i: int| 0 <= i < s.size() implies !(#[trigger] s.workers[i]).failed by {
            assert(!t.workers[i].failed);
        }
    }
}

/// A fresh pool satisfies the invariant.
pub proof fn lemma_init_inv<J>(size: nat)
    requires
        0 < size <= usize::MAX,
    ensures
        PoolState::<J>::init(size).inv(),
        live(PoolState::<J>::init(size).workers) == size,
{
    let s = PoolState::<J>::init(size);
    lemma_tally_full(s.workers, true);
    lemma_tally_zero(s.workers, false);
    lemma_in_flight_none(s.in_progress);
    lemma_multiset_empty_len(in_flight(s.in_progress));
    lemma_empty_to_multiset(s.dispatched);
    lemma_empty_to_multiset(s.completed);
    lemma_empty_to_multiset(s.lost);
}

/// Submitting a job keeps the invariant.
pub proof fn lemma_submit_inv<J>(s: PoolState<J>, job: J)
    requires
        s.inv(),
    ensures
        s.submit(job).inv(),
{
}

/// Handing the oldest signal to a worker keeps the invariant.
pub proof fn lemma_receive_inv<J>(s: PoolState<J>, worker: int)
    requires
        s.inv(),
    ensures
        s.receive(worker).inv(),
{
    if s.can_receive(worker) {
        let after = s.workers[worker].after(s.queue[0]);
        lemma_tally_update(s.workers, worker, after, true);
        lemma_tally_update(s.workers, worker, after, false);
        lemma_tally_bounds(s.workers.update(worker, after));
        if let Signal::Work(job) = s.queue[0] {
            lemma_in_flight_update(s.in_progress, worker, Some(job));
            to_multiset_build(s.dispatched, job);
        }
        lemma_lost_with_worker(s, s.receive(worker));
    }
}

/// The end of a job keeps the invariant.
pub proof fn lemma_finish_inv<J>(s: PoolState<J>, worker: int)
    requires
        s.inv(),
    ensures
        s.finish(worker).inv(),
{
    if s.is_busy(worker) {
        let after = s.workers[worker].after_job();
        lemma_tally_update(s.workers, worker, after, true);
        lemma_tally_update(s.workers, worker, after, false);
        lemma_in_flight_update(s.in_progress, worker, None);
        to_multiset_build(s.completed, s.in_progress[worker]->0);
        lemma_lost_with_worker(s, s.finish(worker));
    }
}

/// A failing job keeps the invariant.
pub proof fn lemma_fail_inv<J>(s: PoolState<J>, worker: int)
    requires
        s.inv(),
    ensures
        s.fail(worker).inv(),
{
    if s.is_busy(worker) {
        let after = s.workers[worker].after_failure();
        lemma_tally_update(s.workers, worker, after, true);
        lemma_tally_update(s.workers, worker, after, false);
        lemma_in_flight_update(s.in_progress, worker, None);
        to_multiset_build(s.lost, s.in_progress[worker]->0);
        assert(s.fail(worker).workers[worker].failed);
    }
}

/// Beginning the teardown keeps the invariant.
pub proof fn lemma_shut_down_inv<J>(s: PoolState<J>)
    requires
        s.inv(),
    ensures
        s.shut_down().inv(),
{
    lemma_tally_bounds(s.workers);
}

/// A step of joining keeps the invariant.
pub proof fn lemma_join_inv<J>(s: PoolState<J>)
    requires
        s.inv(),
    ensures
        s.join().inv(),
{
    if s.join_outcome() is Ok && s.join_outcome()->Ok_0 is Joined {
        lemma_tally_zero(s.workers, false);
    }
}

} // verus!
