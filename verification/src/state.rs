//! The pool as a mathematical object: its state, the steps it can take and
//! the invariant that every step keeps.
//!
//! The state records, besides what an implementation holds, the history of
//! every job: the jobs accepted and the jobs handed to workers, each in
//! order, the job each worker is in the middle of, and the jobs that have
//! ended, well or badly. What the pool promises about jobs is stated over
//! these.

use vstd::prelude::*;
use vstd::multiset::Multiset;
use crate::signal::Signal;
use crate::worker::{Action, Worker, WorkerState};

verus! {

/// Where a pool is in its life.
#[derive(Clone, Copy, Debug, PartialEq, Eq, Structural)]
pub enum Phase {
    /// Accepting jobs.
    Open,
    /// Teardown has begun: one terminate directive is sent for each worker
    /// that was running, and workers are being joined, lowest number first.
    Draining,
    /// Every worker has been joined.
    Closed,
}

/// Why the pool could not do what it was asked.
#[derive(Clone, Copy, Debug, PartialEq, Eq, Structural)]
pub enum PoolError {
    /// No worker is left to receive: every one of them has terminated.
    ChannelClosed,
    /// Teardown has begun. A job accepted now would queue behind the
    /// terminate directives, where no worker could ever reach it.
    ShuttingDown,
    /// The worker with this number was brought down by a failing job, so
    /// joining it cannot succeed.
    WorkerFailed(usize),
}

/// One step of joining the workers during teardown.
#[derive(Clone, Copy, Debug, PartialEq, Eq, Structural)]
pub enum JoinStep {
    /// The worker with this number had left its loop and is now joined.
    Joined(usize),
    /// The worker with this number is still running: the join has to wait.
    Blocked(usize),
    /// No worker is left to join.
    Done,
}

/// Whether `worker` is counted when running workers are counted
/// (`running`), or when those that left on the terminate directive are
/// (`!running`).
pub open spec fn counts(worker: Worker, running: bool) -> bool {
    if running {
        worker.running()
    } else {
        worker.exited()
    }
}

/// How many of `workers` are still running (`running`), or have left on the
/// terminate directive (`!running`).
pub open spec fn tally(workers: Seq<Worker>, running: bool) -> nat
    decreases workers.len(),
{
    if workers.len() == 0 {
        0
    } else {
        tally(workers.drop_last(), running) + if counts(workers.last(), running) {
            1nat
        } else {
            0nat
        }
    }
}

/// The number of workers that are still running.
pub open spec fn live(workers: Seq<Worker>) -> nat {
    tally(workers, true)
}

/// The number of workers that have left their loop on the terminate
/// directive.
pub open spec fn exited(workers: Seq<Worker>) -> nat {
    tally(workers, false)
}

/// The jobs that workers are in the middle of, given what each worker is
/// running.
pub open spec fn in_flight<J>(jobs: Seq<Option<J>>) -> Multiset<J>
    decreases jobs.len(),
{
    if jobs.len() == 0 {
        Multiset::empty()
    } else {
        match jobs.last() {
            Some(job) => in_flight(jobs.drop_last()).insert(job),
            None => in_flight(jobs.drop_last()),
        }
    }
}

/// One step a pool can take.
pub enum Step<J> {
    /// This job is submitted.
    Submit(J),
    /// The worker with this number asks for the next signal.
    Receive(int),
    /// The job that the worker with this number is running ends.
    Done(int),
    /// The job that the worker with this number is running fails.
    Fail(int),
    /// Teardown is asked for.
    ShutDown,
    /// The next step of joining is taken.
    Join,
}

/// The state of a pool.
pub struct PoolState<J> {
    /// The workers, by number.
    pub workers: Seq<Worker>,
    /// The signals sent and not yet received, oldest first.
    pub queue: Seq<Signal<J>>,
    /// Whether the channel still has a receiving end.
    pub connected: bool,
    /// Where the pool is in its life.
    pub phase: Phase,
    /// How many terminate directives teardown has sent: none before it
    /// begins, and then one for each worker that was running when it began.
    pub terminates: nat,
    /// How many workers have been joined; they are the workers numbered
    /// below this.
    pub joined: nat,
    /// Every job the pool has accepted, in the order of acceptance.
    pub submitted: Seq<J>,
    /// Every job the pool has handed to a worker, in the order of handing.
    pub dispatched: Seq<J>,
    /// For each worker, by number, the job it is in the middle of, if any.
    pub in_progress: Seq<Option<J>>,
    /// Every job that has run to its end, in the order of ending.
    pub completed: Seq<J>,
    /// Every job that has failed, in the order of failing.
    pub lost: Seq<J>,
}

impl<J> PoolState<J> {
    /// The number of workers the pool was built with.
    pub open spec fn size(self) -> nat {
        self.workers.len()
    }

    /// The number of accepted jobs that no worker has been handed yet.
    pub open spec fn pending_jobs(self) -> nat {
        (self.submitted.len() - self.dispatched.len()) as nat
    }

    /// The number of terminate directives sent and not yet received.
    pub open spec fn pending_terminates(self) -> nat {
        (self.terminates - exited(self.workers)) as nat
    }

    /// A fresh pool of `size` running workers.
    pub open spec fn init(size: nat) -> Self {
        PoolState {
            workers: Seq::new(
                size,
                |i: int|
                    Worker {
                        id: i as usize,
                        state: WorkerState::Running,
                        busy: false,
                        failed: false,
                    },
            ),
            queue: Seq::empty(),
            connected: true,
            phase: Phase::Open,
            terminates: 0,
            joined: 0,
            submitted: Seq::empty(),
            dispatched: Seq::empty(),
            in_progress: Seq::new(size, |i: int| None),
            completed: Seq::empty(),
            lost: Seq::empty(),
        }
    }

    /// What holds of every pool, whatever was done with it.
    pub open spec fn inv(self) -> bool {
        // The workers are numbered by position, and only a terminated
        // worker has failed.
        &&& self.size() > 0
        &&& forall|i: int|
            0 <= i < self.size() ==> (#[trigger] self.workers[i]).id == i && self.workers[i].wf()
        // The channel has a receiving end as long as a worker is running.
        &&& self.connected == (live(self.workers) > 0)
        // The jobs handed out are the first so many of the jobs submitted.
        &&& self.dispatched.is_prefix_of(self.submitted)
        // Teardown sends no more terminate directives than there are
        // workers, and at least one for each worker that is running or has
        // left on one; before teardown none is sent.
        &&& self.terminates <= self.size()
        &&& self.phase is Open ==> self.terminates == 0
        &&& !(self.phase is Open) ==> live(self.workers) + exited(self.workers)
            <= self.terminates
        // The channel holds the jobs not yet handed out, in the order of
        // their submission, and behind them the terminate directives sent
        // and not yet received.
        &&& self.queue.len() == self.pending_jobs() + self.pending_terminates()
        &&& forall|k: int|
            0 <= k < self.pending_jobs() ==> #[trigger] self.queue[k] == Signal::Work(
                self.submitted[self.dispatched.len() + k],
            )
        &&& forall|k: int|
            self.pending_jobs() <= k < self.queue.len() ==> #[trigger] self.queue[k] is Terminate
        // Before teardown no worker is told to exit, and none is joined.
        &&& self.phase is Open ==> self.joined == 0 && exited(self.workers) == 0
        // By the time a worker is told to exit, every job has been handed
        // out.
        &&& exited(self.workers) > 0 ==> self.pending_jobs() == 0
        // The workers joined are the lowest numbered, and each of them had
        // left on the terminate directive. The pool is closed with the last.
        &&& self.joined <= self.size()
        &&& forall|i: int| 0 <= i < self.joined ==> (#[trigger] self.workers[i]).exited()
        &&& (self.phase is Closed) == (!(self.phase is Open) && self.joined == self.size())
        // A worker is busy exactly while a job is recorded for it, and every
        // job handed out is in the middle of being run, has ended, or has
        // failed: each of them once.
        &&& self.in_progress.len() == self.size()
        &&& forall|i: int|
            0 <= i < self.size() ==> ((#[trigger] self.in_progress[i]) is Some)
                == self.workers[i].busy
        &&& self.dispatched.to_multiset() =~= self.completed.to_multiset().add(
            self.lost.to_multiset(),
        ).add(in_flight(self.in_progress))
        // A job is lost only with the worker that ran it.
        &&& (forall|i: int| 0 <= i < self.size() ==> !(#[trigger] self.workers[i]).failed)
            ==> self.lost.len() == 0
    }

    /// What submitting a job returns.
    pub open spec fn submit_outcome(self) -> Result<(), PoolError> {
        if !(self.phase is Open) {
            Err(PoolError::ShuttingDown)
        } else if !self.connected {
            Err(PoolError::ChannelClosed)
        } else {
            Ok(())
        }
    }

    /// The pool after `job` was submitted: queued behind everything else
    /// when it is accepted, and the pool unchanged when it is not.
    pub open spec fn submit(self, job: J) -> Self {
        if self.submit_outcome() is Ok {
            PoolState {
                queue: self.queue.push(Signal::Work(job)),
                submitted: self.submitted.push(job),
                ..self
            }
        } else {
            self
        }
    }

    /// Whether the worker numbered `worker` is free to receive and has
    /// something to receive.
    pub open spec fn can_receive(self, worker: int) -> bool {
        &&& 0 <= worker < self.size()
        &&& self.workers[worker].idle()
        &&& self.queue.len() > 0
    }

    /// What the worker numbered `worker` is told when it asks for the next
    /// signal: nothing where it would have to wait, is in the middle of a
    /// job or has terminated, and else what to do with the oldest signal.
    pub open spec fn receive_outcome(self, worker: int) -> Option<Action<J>> {
        if self.can_receive(worker) {
            Some(Worker::reaction(self.queue[0]))
        } else {
            None
        }
    }

    /// The pool after the worker numbered `worker` asked for the next signal.
    pub open spec fn receive(self, worker: int) -> Self {
        if self.can_receive(worker) {
            let workers = self.workers.update(worker, self.workers[worker].after(self.queue[0]));
            PoolState {
                workers,
                queue: self.queue.skip(1),
                connected: live(workers) > 0,
                dispatched: match self.queue[0] {
                    Signal::Work(job) => self.dispatched.push(job),
                    Signal::Terminate => self.dispatched,
                },
                in_progress: match self.queue[0] {
                    Signal::Work(job) => self.in_progress.update(worker, Some(job)),
                    Signal::Terminate => self.in_progress,
                },
                ..self
            }
        } else {
            self
        }
    }

    /// Whether the worker numbered `worker` is in the middle of a job.
    pub open spec fn is_busy(self, worker: int) -> bool {
        &&& 0 <= worker < self.size()
        &&& self.workers[worker].busy
    }

    /// The pool after the job on the worker numbered `worker` has ended:
    /// the job joins the completed ones and the worker is free again.
    /// Nothing changes when that worker is not running a job.
    pub open spec fn finish(self, worker: int) -> Self {
        if self.is_busy(worker) {
            PoolState {
                workers: self.workers.update(worker, self.workers[worker].after_job()),
                in_progress: self.in_progress.update(worker, None),
                completed: self.completed.push(self.in_progress[worker]->0),
                ..self
            }
        } else {
            self
        }
    }

    /// The pool after the job on the worker numbered `worker` has failed:
    /// the job is lost and the worker with it. Nothing changes when that
    /// worker is not running a job.
    pub open spec fn fail(self, worker: int) -> Self {
        if self.is_busy(worker) {
            let workers = self.workers.update(worker, self.workers[worker].after_failure());
            PoolState {
                workers,
                connected: live(workers) > 0,
                in_progress: self.in_progress.update(worker, None),
                lost: self.lost.push(self.in_progress[worker]->0),
                ..self
            }
        } else {
            self
        }
    }

    /// What beginning the teardown returns.
    pub open spec fn shut_down_outcome(self) -> Result<(), PoolError> {
        if self.phase is Open && !self.connected {
            Err(PoolError::ChannelClosed)
        } else {
            Ok(())
        }
    }

    /// The pool after its teardown was asked for: on the first request, and
    /// if a worker is left to receive, one terminate directive is queued for
    /// each worker that is running; otherwise nothing changes.
    pub open spec fn shut_down(self) -> Self {
        if self.phase is Open && self.connected {
            PoolState {
                queue: self.queue + Seq::new(live(self.workers), |i: int| Signal::Terminate),
                phase: Phase::Draining,
                terminates: live(self.workers),
                ..self
            }
        } else {
            self
        }
    }

    /// What the next step of joining returns. Workers are joined by number,
    /// lowest first.
    pub open spec fn join_outcome(self) -> Result<JoinStep, PoolError> {
        if self.joined >= self.size() {
            Ok(JoinStep::Done)
        } else {
            let next = self.workers[self.joined as int];
            if next.running() {
                Ok(JoinStep::Blocked(next.id))
            } else if next.failed {
                Err(PoolError::WorkerFailed(next.id))
            } else {
                Ok(JoinStep::Joined(next.id))
            }
        }
    }

    /// The pool after the next step of joining: one more worker is joined if
    /// the next in line has left its loop on the terminate directive, and
    /// the pool is closed with the last.
    pub open spec fn join(self) -> Self {
        if self.join_outcome() is Ok && self.join_outcome()->Ok_0 is Joined {
            PoolState {
                joined: self.joined + 1,
                phase: if self.joined + 1 == self.size() {
                    Phase::Closed
                } else {
                    self.phase
                },
                ..self
            }
        } else {
            self
        }
    }

    /// The pool after one step.
    pub open spec fn step(self, step: Step<J>) -> Self {
        match step {
            Step::Submit(job) => self.submit(job),
            Step::Receive(worker) => self.receive(worker),
            Step::Done(worker) => self.finish(worker),
            Step::Fail(worker) => self.fail(worker),
            Step::ShutDown => self.shut_down(),
            Step::Join => self.join(),
        }
    }

    /// How many steps separate a pool that is being torn down from being
    /// closed: one for each signal still to be received, one for each job
    /// still to end, be it queued or in the middle of being run, and one for
    /// each worker still to be joined.
    pub open spec fn remaining(self) -> nat {
        (self.queue.len() + self.pending_jobs() + in_flight(self.in_progress).len() + self.size()
            - self.joined) as nat
    }

    /// The step that teardown waits for: the worker next in line is joined
    /// if it has left its loop; else its job ends if it is running one, and
    /// else it receives.
    pub open spec fn teardown_step(self) -> Step<J> {
        if self.joined < self.size() && self.workers[self.joined as int].running() {
            if self.workers[self.joined as int].busy {
                Step::Done(self.joined as int)
            } else {
                Step::Receive(self.joined as int)
            }
        } else {
            Step::Join
        }
    }

    /// The pool after `steps` steps of teardown, each the one that teardown
    /// waits for.
    pub open spec fn teardown(self, steps: nat) -> Self
        decreases steps,
    {
        if steps == 0 {
            self
        } else {
            self.step(self.teardown_step()).teardown((steps - 1) as nat)
        }
    }

    /// The pool after a sequence of steps, taken in order.
    pub open spec fn run(self, steps: Seq<Step<J>>) -> Self
        decreases steps.len(),
    {
        if steps.len() == 0 {
            self
        } else {
            self.run(steps.drop_last()).step(steps.last())
        }
    }
}

} // verus!
