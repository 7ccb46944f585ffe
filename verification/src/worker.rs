//! A worker: a numbered consumer of signals with a two-state life.
//!
//! A worker is `Running` from the moment it is created. It stays `Running`
//! across every job it is handed and becomes `Terminated`, for good, when it
//! receives the terminate directive or when a job it was running fails.
//! While it is running a job it is busy, and takes no signal until that job
//! has ended: the jobs of one worker never overlap.

use vstd::prelude::*;
use crate::signal::Signal;

verus! {

/// Where a worker is in its life. `Terminated` is final.
#[derive(Clone, Copy, Debug, PartialEq, Eq, Structural)]
pub enum WorkerState {
    /// Receiving signals and running jobs.
    Running,
    /// Out of the receive loop; the worker's thread has ended or is ending.
    Terminated,
}

/// What a worker does with a signal it has received.
#[derive(Debug, PartialEq, Eq)]
pub enum Action<J> {
    /// Run this job to completion, then receive again.
    Run(J),
    /// Leave the receive loop and end the thread.
    Exit,
}

/// The bookkeeping for one worker: its number, its state, whether it is in
/// the middle of a job and, once it has terminated, whether it did so
/// because a job failed.
#[derive(Clone, Copy, Debug, PartialEq, Eq, Structural)]
pub struct Worker {
    /// The worker's position in its pool, counted from zero.
    pub id: usize,
    /// Whether the worker is still receiving.
    pub state: WorkerState,
    /// Whether the worker is running a job that has not ended yet.
    pub busy: bool,
    /// Whether the worker was brought down by a failing job.
    pub failed: bool,
}

impl Worker {
    /// Only a running worker is busy, and only a terminated one has failed.
    pub open spec fn wf(self) -> bool {
        &&& self.busy ==> self.state is Running
        &&& self.failed ==> self.state is Terminated
    }

    /// Whether the worker is still in its receive loop.
    pub open spec fn running(self) -> bool {
        self.state is Running
    }

    /// Whether the worker is free to take the next signal: running, and not
    /// in the middle of a job.
    pub open spec fn idle(self) -> bool {
        self.state is Running && !self.busy
    }

    /// Whether the worker left its loop on the terminate directive.
    pub open spec fn exited(self) -> bool {
        self.state is Terminated && !self.failed
    }

    /// The worker after it has received `signal`: busy with the job, or
    /// terminated.
    pub open spec fn after<J>(self, signal: Signal<J>) -> Worker {
        match signal {
            Signal::Work(_) => Worker { busy: true, ..self },
            Signal::Terminate => Worker { state: WorkerState::Terminated, ..self },
        }
    }

    /// The worker after the job it was running has ended.
    pub open spec fn after_job(self) -> Worker {
        Worker { busy: false, ..self }
    }

    /// The worker after the job it was running has failed.
    pub open spec fn after_failure(self) -> Worker {
        Worker { state: WorkerState::Terminated, busy: false, failed: true, ..self }
    }

    /// What an idle worker does on receiving `signal`.
    pub open spec fn reaction<J>(signal: Signal<J>) -> Action<J> {
        match signal {
            Signal::Work(job) => Action::Run(job),
            Signal::Terminate => Action::Exit,
        }
    }

    /// The worker after it was offered `signals` one after the other, each
    /// job ending before the next signal is taken. A worker that is not idle
    /// takes nothing.
    pub open spec fn after_all<J>(self, signals: Seq<Signal<J>>) -> Worker
        decreases signals.len(),
    {
        if signals.len() == 0 {
            self
        } else {
            let before = self.after_all(signals.drop_last());
            if before.idle() {
                match signals.last() {
                    Signal::Work(_) => before.after(signals.last()).after_job(),
                    Signal::Terminate => before.after(signals.last()),
                }
            } else {
                before
            }
        }
    }

    /// The jobs the worker runs when it is offered `signals` one after the
    /// other, in the order in which it runs them.
    pub open spec fn jobs_run<J>(self, signals: Seq<Signal<J>>) -> Seq<J>
        decreases signals.len(),
    {
        if signals.len() == 0 {
            Seq::empty()
        } else {
            let jobs = self.jobs_run(signals.drop_last());
            match signals.last() {
                Signal::Work(job) if self.after_all(signals.drop_last()).idle() => jobs.push(job),
                _ => jobs,
            }
        }
    }

    /// An idle, running worker with the given number.
    pub fn new(id: usize) -> (worker: Worker)
        ensures
            worker == (Worker { id, state: WorkerState::Running, busy: false, failed: false }),
    {
        Worker { id, state: WorkerState::Running, busy: false, failed: false }
    }

    /// Whether the worker is still in its receive loop.
    pub fn is_running(&self) -> (b: bool)
        ensures
            b == self.running(),
    {
        self.state == WorkerState::Running
    }

    /// Whether the worker is free to take the next signal.
    pub fn is_idle(&self) -> (b: bool)
        ensures
            b == self.idle(),
    {
        self.state == WorkerState::Running && !self.busy
    }

    /// Takes one received signal and says what to do about it.
    ///
    /// A job is handed on to be run, and the worker is busy until the job
    /// has ended; the terminate directive ends the worker. A worker that is
    /// terminated or in the middle of a job receives nothing, so the worker
    /// must be idle.
    pub fn on_signal<J>(&mut self, signal: Signal<J>) -> (action: Action<J>)
        requires
            old(self).idle(),
        ensures
            *final(self) == old(self).after(signal),
            action == Worker::reaction(signal),
    {
        match signal {
            Signal::Work(job) => {
                self.busy = true;
                Action::Run(job)
            },
            Signal::Terminate => {
                self.state = WorkerState::Terminated;
                Action::Exit
            },
        }
    }

    /// Records that the job the worker was running has ended, which frees
    /// the worker for the next signal.
    pub fn on_job_done(&mut self)
        requires
            old(self).busy,
        ensures
            *final(self) == old(self).after_job(),
    {
        self.busy = false;
    }

    /// Records that the job the worker was running has failed, which ends
    /// the worker. Nobody restarts it.
    pub fn on_failure(&mut self)
        requires
            old(self).busy,
        ensures
            *final(self) == old(self).after_failure(),
    {
        self.state = WorkerState::Terminated;
        self.busy = false;
        self.failed = true;
    }
}

} // verus!
