//! What a pool guarantees, stated over its abstract state and proved.

use vstd::prelude::*;
use vstd::multiset::{lemma_multiset_empty_len, Multiset};
use vstd::seq_lib::to_multiset_len;
use crate::preservation::{
    lemma_empty_to_multiset,
    lemma_fail_inv,
    lemma_finish_inv,
    lemma_in_flight_none,
    lemma_in_flight_update,
    lemma_init_inv,
    lemma_join_inv,
    lemma_receive_inv,
    lemma_shut_down_inv,
    lemma_submit_inv,
    lemma_tally_full,
    lemma_tally_update,
    lemma_tally_zero,
};
use crate::signal::Signal;
use crate::state::{exited, in_flight, live, JoinStep, PoolError, PoolState, Step};
use crate::worker::{Action, Worker, WorkerState};

verus! {

/// Whatever steps a fresh pool takes, in whatever order, its state satisfies
/// the invariant.
pub proof fn law_invariant_holds_throughout<J>(size: nat, steps: Seq<Step<J>>)
    requires
        0 < size <= usize::MAX,
    ensures
        PoolState::<J>::init(size).run(steps).inv(),
    decreases steps.len(),
{
    let fresh = PoolState::<J>::init(size);
    if steps.len() == 0 {
        lemma_init_inv::<J>(size);
    } else {
        law_invariant_holds_throughout(size, steps.drop_last());
        lemma_step_inv(fresh.run(steps.drop_last()), steps.last());
    }
}

/// A fresh pool of `size` workers has exactly `size` workers, numbered from
/// zero and all running, and is ready for work: a job submitted to it is
/// accepted, and whichever worker asks first is handed that job.
pub proof fn law_fresh_pool_is_ready<J>(size: nat, job: J, worker: int)
    requires
        0 < size <= usize::MAX,
        0 <= worker < size,
    ensures
        PoolState::<J>::init(size).size() == size,
        live(PoolState::<J>::init(size).workers) == size,
        forall|i: int|
            0 <= i < size ==> (#[trigger] PoolState::<J>::init(size).workers[i]).idle()
                && PoolState::<J>::init(size).workers[i].id == i,
        PoolState::<J>::init(size).submit_outcome() == Ok::<(), PoolError>(()),
        PoolState::<J>::init(size).submit(job).receive_outcome(worker) == Some(Action::Run(job)),
{
    lemma_init_inv::<J>(size);
}

/// The histories change only with what the caller is told or tells: a job
/// joins the submitted ones exactly when its submission is accepted, the
/// dispatched ones exactly when a worker is handed it to run, and the
/// completed or the lost ones exactly when the worker that was handed it
/// reports its end or its failure.
pub proof fn law_histories_follow_outcomes<J>(s: PoolState<J>, step: Step<J>)
    ensures
        s.step(step).submitted == (match step {
            Step::Submit(job) if s.submit_outcome() is Ok => s.submitted.push(job),
            _ => s.submitted,
        }),
        s.step(step).dispatched == (match step {
            Step::Receive(worker) => match s.receive_outcome(worker) {
                Some(Action::Run(job)) => s.dispatched.push(job),
                _ => s.dispatched,
            },
            _ => s.dispatched,
        }),
        s.step(step).completed == (match step {
            Step::Done(worker) if s.is_busy(worker) => s.completed.push(s.in_progress[worker]->0),
            _ => s.completed,
        }),
        s.step(step).lost == (match step {
            Step::Fail(worker) if s.is_busy(worker) => s.lost.push(s.in_progress[worker]->0),
            _ => s.lost,
        }),
{
}

/// No job is handed out twice, skipped or reordered: at every moment the
/// jobs handed to workers are the first so many of the jobs submitted, in
/// the order of submission.
pub proof fn law_jobs_are_dispatched_in_order<J>(s: PoolState<J>)
    requires
        s.inv(),
    ensures
        s.dispatched.len() <= s.submitted.len(),
        forall|k: int| 0 <= k < s.dispatched.len() ==> s.dispatched[k] == s.submitted[k],
{
}

/// No worker is told to exit while a job is queued: when a worker asking
/// for the next signal is told to exit, every job submitted has been handed
/// to some worker.
pub proof fn law_work_comes_before_exit<J>(s: PoolState<J>, worker: int)
    requires
        s.inv(),
        s.receive_outcome(worker) == Some(Action::<J>::Exit),
    ensures
        s.dispatched == s.submitted,
{
}

/// Which worker runs a job is decided by who asks first, and a worker that
/// has been handed a job does not hold up the others: of two jobs submitted
/// to an idle pool, the first goes to whichever idle worker asks first, and
/// the second to whichever other idle worker asks next, while the first job
/// is still running.
pub proof fn law_first_to_ask_is_served<J>(
    s: PoolState<J>,
    first: J,
    second: J,
    worker: int,
    other: int,
)
    requires
        s.inv(),
        s.submit_outcome() is Ok,
        s.queue.len() == 0,
        0 <= worker < s.size() && s.workers[worker].idle(),
        0 <= other < s.size() && s.workers[other].idle(),
        worker != other,
    ensures
        s.submit(first).submit(second).receive_outcome(worker) == Some(Action::Run(first)),
        s.submit(first).submit(second).receive(worker).receive_outcome(other) == Some(
            Action::Run(second),
        ),
        s.submit(first).submit(second).receive(worker).receive(other).in_progress[worker]
            == Some(first),
        s.submit(first).submit(second).receive(worker).receive(other).in_progress[other] == Some(
            second,
        ),
{
}

/// The jobs of one worker never overlap. A worker in the middle of a job is
/// handed nothing, whoever asks in its name; the job stays its one job
/// through every step of the pool but the end or the failure of that very
/// job; and so a worker that is handed a job has none in progress: whatever
/// it was handed before has ended.
pub proof fn law_one_job_at_a_time<J>(s: PoolState<J>, worker: int, step: Step<J>)
    requires
        s.inv(),
        0 <= worker < s.size(),
    ensures
        s.workers[worker].busy ==> s.receive_outcome(worker) is None && s.receive(worker) == s,
        s.workers[worker].busy && step != Step::<J>::Done(worker) && step != Step::<J>::Fail(
            worker,
        ) ==> s.step(step).workers[worker].busy && s.step(step).in_progress[worker]
            == s.in_progress[worker],
        s.receive_outcome(worker) is Some ==> s.in_progress[worker] is None,
        s.receive_outcome(worker) matches Some(Action::Run(job)) ==> s.receive(
            worker,
        ).in_progress[worker] == Some(job),
{
}

/// A worker that has terminated is handed nothing more, and no job ends or
/// fails on it.
pub proof fn law_terminated_worker_is_done<J>(s: PoolState<J>, worker: int)
    requires
        s.inv(),
        0 <= worker < s.size(),
        !s.workers[worker].running(),
    ensures
        s.receive_outcome(worker) is None,
        s.receive(worker) == s,
        s.finish(worker) == s,
        s.fail(worker) == s,
{
}

/// What one worker does with the signals it receives: it runs the jobs that
/// come before the first terminate directive, each once and in the order
/// received, every one to its end before the next, and then leaves its loop
/// for good. What comes after the directive it never takes.
pub proof fn law_worker_runs_what_precedes_terminate<J>(
    worker: Worker,
    signals: Seq<Signal<J>>,
    first: int,
)
    requires
        worker.idle(),
        !worker.failed,
        0 <= first < signals.len(),
        signals[first] is Terminate,
        forall|i: int| 0 <= i < first ==> signals[i] is Work,
    ensures
        worker.jobs_run(signals) == Seq::new(first as nat, |i: int| signals[i]->Work_0),
        worker.after_all(signals) == (Worker { state: WorkerState::Terminated, ..worker }),
        worker.after_all(signals).exited(),
    decreases signals.len(),
{
    let front = signals.drop_last();
    if first == signals.len() - 1 {
        law_worker_runs_all_work(worker, front);
    } else {
        law_worker_runs_what_precedes_terminate(worker, front, first);
    }
}

/// As long as no terminate directive is among them, a worker runs the job
/// of every signal it receives, in the order received, and is free again
/// after the last.
pub proof fn law_worker_runs_all_work<J>(worker: Worker, signals: Seq<Signal<J>>)
    requires
        worker.idle(),
        forall|i: int| 0 <= i < signals.len() ==> signals[i] is Work,
    ensures
        worker.jobs_run(signals) == Seq::new(signals.len(), |i: int| signals[i]->Work_0),
        worker.after_all(signals) == worker,
    decreases signals.len(),
{
    if signals.len() > 0 {
        law_worker_runs_all_work(worker, signals.drop_last());
    }
}

/// Once a pool is closed, every job that was submitted has been handed to a
/// worker and has run to its end, exactly once: nothing is left in the
/// channel, no job is in the middle of being run, none was lost, and the
/// jobs completed are the jobs submitted, each as often as it was
/// submitted. Only the order of their ends is left open.
pub proof fn law_closed_pool_ran_every_job<J>(s: PoolState<J>)
    requires
        s.inv(),
        s.phase is Closed,
    ensures
        s.dispatched == s.submitted,
        s.queue.len() == 0,
        forall|i: int| 0 <= i < s.size() ==> (#[trigger] s.in_progress[i]) is None,
        s.lost.len() == 0,
        s.completed.to_multiset() == s.submitted.to_multiset(),
        s.completed.len() == s.submitted.len(),
{
    assert(s.workers[0].exited());
    lemma_tally_zero(s.workers, false);
    lemma_tally_full(s.workers, false);
    lemma_in_flight_none(s.in_progress);
    lemma_multiset_empty_len(in_flight(s.in_progress));
    lemma_empty_to_multiset(s.lost);
    assert(s.dispatched =~= s.submitted);
    assert(s.lost.to_multiset() == Multiset::<J>::empty());
    assert(in_flight(s.in_progress) == Multiset::<J>::empty());
    assert(s.completed.to_multiset().add(Multiset::empty()).add(Multiset::empty())
        =~= s.completed.to_multiset());
    to_multiset_len(s.completed);
    to_multiset_len(s.submitted);
}

/// The same of every run: if a fresh pool, after any steps in any order, is
/// closed, the jobs that have run to their end are exactly the jobs
/// submitted, each as often as it was submitted.
pub proof fn law_every_job_runs_exactly_once<J>(size: nat, steps: Seq<Step<J>>)
    requires
        0 < size <= usize::MAX,
        PoolState::<J>::init(size).run(steps).phase is Closed,
    ensures
        PoolState::<J>::init(size).run(steps).dispatched == PoolState::<J>::init(size).run(
            steps,
        ).submitted,
        PoolState::<J>::init(size).run(steps).completed.to_multiset() == PoolState::<J>::init(
            size,
        ).run(steps).submitted.to_multiset(),
{
    law_invariant_holds_throughout(size, steps);
    law_closed_pool_ran_every_job(PoolState::<J>::init(size).run(steps));
}

/// Teardown sends exactly one terminate directive for each worker that is
/// running, behind every job already queued, and none for a worker that a
/// failing job has brought down; it fails only when no worker is left to
/// receive. Where no job has failed, that is one directive for each of the
/// workers the pool was built with.
pub proof fn law_teardown_sends_one_terminate_per_live_worker<J>(s: PoolState<J>)
    requires
        s.inv(),
        s.phase is Open,
    ensures
        s.shut_down_outcome() is Ok <==> s.connected,
        s.connected ==> s.shut_down().queue == s.queue + Seq::new(
            live(s.workers),
            |i: int| Signal::<J>::Terminate,
        ),
        s.connected ==> s.shut_down().terminates == live(s.workers),
        s.connected ==> s.shut_down().pending_terminates() == live(s.shut_down().workers),
        s.connected ==> s.shut_down().phase is Draining,
        !s.connected ==> s.shut_down() == s,
        (forall|i: int| 0 <= i < s.size() ==> !(#[trigger] s.workers[i]).failed) ==> live(
            s.workers,
        ) == s.size(),
{
    if forall|i: int| 0 <= i < s.size() ==> !(#[trigger] s.workers[i]).failed {
        lemma_live_or_exited(s.workers);
    }
}

/// Workers are joined one at a time in the order of their numbers, and only
/// after they have left their loop.
pub proof fn law_workers_are_joined_in_order<J>(s: PoolState<J>)
    requires
        s.inv(),
    ensures
        s.join_outcome() is Ok && s.join_outcome()->Ok_0 is Joined ==> {
            &&& s.join_outcome()->Ok_0->Joined_0 == s.joined
            &&& s.workers[s.joined as int].exited()
            &&& s.join().joined == s.joined + 1
        },
        s.join_outcome() is Ok && s.join_outcome()->Ok_0 is Blocked ==> {
            &&& s.join_outcome()->Ok_0->Blocked_0 == s.joined
            &&& s.workers[s.joined as int].running()
            &&& s.join() == s
        },
        s.join_outcome() is Err ==> {
            &&& s.join_outcome() == Err::<JoinStep, PoolError>(
                PoolError::WorkerFailed(s.joined as usize),
            )
            &&& s.workers[s.joined as int].failed
            &&& s.join() == s
        },
        s.join_outcome() == Ok::<JoinStep, PoolError>(JoinStep::Done) <==> s.joined == s.size(),
{
}

/// A pool is closed only after every one of its workers has left its loop on
/// the terminate directive and has been joined: no worker is running, none
/// has failed, and no terminate directive is left over.
pub proof fn law_closed_pool_has_no_running_worker<J>(s: PoolState<J>)
    requires
        s.inv(),
        s.phase is Closed,
    ensures
        s.joined == s.size(),
        forall|i: int| 0 <= i < s.size() ==> (#[trigger] s.workers[i]).exited(),
        live(s.workers) == 0,
        !s.connected,
        s.pending_terminates() == 0,
{
    lemma_tally_full(s.workers, false);
    lemma_tally_zero(s.workers, true);
}

/// Once teardown has begun, a terminate directive is waiting for every
/// worker that is still running, so that none waits for ever. As long as no
/// job fails during teardown there is exactly one for each: every running
/// worker will be told to exit, none twice, and no directive is left over.
/// Workers that failed before teardown began do not count: none was sent
/// for them.
pub proof fn law_one_terminate_per_running_worker<J>(s: PoolState<J>, step: Step<J>)
    requires
        s.inv(),
        !(s.phase is Open),
    ensures
        s.pending_terminates() >= live(s.workers),
        !(step is Fail) && s.pending_terminates() == live(s.workers) ==> s.step(
            step,
        ).pending_terminates() == live(s.step(step).workers),
{
    match step {
        Step::Receive(worker) => {
            if s.can_receive(worker) {
                let after = s.workers[worker].after(s.queue[0]);
                lemma_tally_update(s.workers, worker, after, true);
                lemma_tally_update(s.workers, worker, after, false);
            }
        },
        Step::Done(worker) => {
            if s.is_busy(worker) {
                lemma_tally_update(s.workers, worker, s.workers[worker].after_job(), true);
                lemma_tally_update(s.workers, worker, s.workers[worker].after_job(), false);
            }
        },
        _ => {},
    }
}

/// Teardown cannot get stuck on a worker that has not failed: in a pool
/// that is being torn down, the next worker in line has either left its
/// loop and can be joined, or is in the middle of a job, or is free and a
/// signal is waiting for it. Only a worker that a failing job brought down
/// stops the joining.
pub proof fn law_teardown_never_deadlocks<J>(s: PoolState<J>)
    requires
        s.inv(),
        s.phase is Draining,
    ensures
        s.joined < s.size(),
        s.join_outcome() == Ok::<JoinStep, PoolError>(JoinStep::Joined(s.joined as usize))
            || s.is_busy(s.joined as int) || s.can_receive(s.joined as int) || s.join_outcome()
            == Err::<JoinStep, PoolError>(PoolError::WorkerFailed(s.joined as usize)),
{
    if s.workers[s.joined as int].running() {
        lemma_tally_zero(s.workers, true);
    }
}

/// Teardown counts down: while no job fails, every step of a pool that is
/// being torn down either changes nothing or brings the pool one step closer
/// to being closed.
pub proof fn law_teardown_counts_down<J>(s: PoolState<J>, step: Step<J>)
    requires
        s.inv(),
        s.phase is Draining,
        !(step is Fail),
    ensures
        s.step(step) == s || s.step(step).remaining() + 1 == s.remaining(),
        s.step(step).phase is Closed <==> s.step(step).remaining() == 0,
{
    lemma_step_inv(s, step);
    match step {
        Step::Receive(worker) => {
            if s.can_receive(worker) {
                if let Signal::Work(job) = s.queue[0] {
                    lemma_in_flight_update(s.in_progress, worker, Some(job));
                }
            }
        },
        Step::Done(worker) => {
            if s.is_busy(worker) {
                lemma_in_flight_update(s.in_progress, worker, None);
            }
        },
        _ => {},
    }
    let t = s.step(step);
    if t.phase is Closed {
        law_closed_pool_ran_every_job(t);
        lemma_in_flight_none(t.in_progress);
    }
}

/// Teardown completes: while no job has failed, a pool that is being torn
/// down is closed after as many steps as `remaining` counts, if each step is
/// the one that teardown waits for; and by then every job submitted has run
/// to its end.
pub proof fn law_teardown_completes<J>(s: PoolState<J>)
    requires
        s.inv(),
        s.phase is Draining,
        forall|i: int| 0 <= i < s.size() ==> !(#[trigger] s.workers[i]).failed,
    ensures
        s.teardown(s.remaining()).inv(),
        s.teardown(s.remaining()).phase is Closed,
        s.teardown(s.remaining()).submitted == s.submitted,
        s.teardown(s.remaining()).dispatched == s.submitted,
        s.teardown(s.remaining()).completed.to_multiset() == s.submitted.to_multiset(),
    decreases s.remaining(),
{
    law_teardown_never_deadlocks(s);
    let step = s.teardown_step();
    let t = s.step(step);
    law_teardown_counts_down(s, step);
    lemma_step_inv(s, step);
    assert(t.remaining() + 1 == s.remaining());
    assert(s.teardown(s.remaining()) == t.teardown(t.remaining()));
    if t.phase is Closed {
        law_closed_pool_ran_every_job(t);
    } else {
        assert forall|i: int| 0 <= i < t.size() implies !(#[trigger] t.workers[i]).failed by {
            assert(!s.workers[i].failed);
        }
        law_teardown_completes(t);
    }
}

/// A failing job costs the pool exactly the worker that ran it and the job
/// itself: the other workers, the channel's contents and the other
/// histories stay as they were, and nothing tells the submitters.
pub proof fn law_failure_costs_one_worker<J>(s: PoolState<J>, worker: int)
    requires
        s.inv(),
        s.is_busy(worker),
    ensures
        live(s.fail(worker).workers) + 1 == live(s.workers),
        forall|i: int|
            0 <= i < s.size() && i != worker ==> #[trigger] s.fail(worker).workers[i]
                == s.workers[i],
        s.fail(worker).queue == s.queue,
        s.fail(worker).submitted == s.submitted,
        s.fail(worker).dispatched == s.dispatched,
        s.fail(worker).completed == s.completed,
        s.fail(worker).lost == s.lost.push(s.in_progress[worker]->0),
        s.fail(worker).submit_outcome() is Ok <==> s.submit_outcome() is Ok && live(s.workers)
            > 1,
{
    lemma_tally_update(s.workers, worker, s.workers[worker].after_failure(), true);
}

/// While no job has failed and teardown has not begun, the channel has a
/// receiving end: submitting a job and asking for teardown both succeed.
pub proof fn law_channel_stays_open_without_failures<J>(s: PoolState<J>)
    requires
        s.inv(),
        s.phase is Open,
        forall|i: int| 0 <= i < s.size() ==> !(#[trigger] s.workers[i]).failed,
    ensures
        s.connected,
        live(s.workers) == s.size(),
        s.submit_outcome() is Ok,
        s.shut_down_outcome() is Ok,
{
    lemma_live_or_exited(s.workers);
}

/// Every step keeps the invariant.
proof fn lemma_step_inv<J>(s: PoolState<J>, step: Step<J>)
    requires
        s.inv(),
    ensures
        s.step(step).inv(),
{
    match step {
        Step::Submit(job) => lemma_submit_inv(s, job),
        Step::Receive(worker) => lemma_receive_inv(s, worker),
        Step::Done(worker) => lemma_finish_inv(s, worker),
        Step::Fail(worker) => lemma_fail_inv(s, worker),
        Step::ShutDown => lemma_shut_down_inv(s),
        Step::Join => lemma_join_inv(s),
    }
}

/// Where no worker has failed, every worker is either running or has left
/// on the terminate directive.
proof fn lemma_live_or_exited(workers: Seq<Worker>)
    requires
        forall|i: int| 0 <= i < workers.len() ==> !(#[trigger] workers[i]).failed,
    ensures
        live(workers) + exited(workers) == workers.len(),
    decreases workers.len(),
{
    if workers.len() > 0 {
        let front = workers.drop_last();
        assert forall|i: int| 0 <= i < front.len() implies !(#[trigger] front[i]).failed by {
            assert(front[i] == workers[i]);
        }
        lemma_live_or_exited(front);
    }
}

} // verus!
