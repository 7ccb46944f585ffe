//! The pool itself: a fixed set of workers, the channel that feeds them and
//! the bookkeeping of its teardown.
//!
//! A pool takes one step at a time: a job is submitted, a worker asks for
//! the next signal, a job ends or fails, teardown begins, a worker is
//! joined. Each step is one call, and each call says which step of the
//! abstract pool it took. The caller supplies the threads: a worker's thread
//! asks for a signal with [`ThreadPool::receive`], runs the job it is handed
//! outside the pool, reports its end with [`ThreadPool::job_done`], and asks
//! again.

use vstd::prelude::*;
use crate::channel::Channel;
use crate::preservation::{
    lemma_fail_inv,
    lemma_finish_inv,
    lemma_init_inv,
    lemma_join_inv,
    lemma_receive_inv,
    lemma_shut_down_inv,
    lemma_tally_update,
    lemma_tally_zero,
};
use crate::signal::Signal;
use crate::state::{live, JoinStep, Phase, PoolError, PoolState};
use crate::worker::{Action, Worker};

verus! {

/// A pool of a fixed number of workers, fed through one channel.
///
/// Its view is the abstract [`PoolState`].
pub struct ThreadPool<J> {
    workers: Vec<Worker>,
    channel: Channel<J>,
    phase: Phase,
    terminates: Ghost<nat>,
    joined: usize,
    live: usize,
    submitted: Ghost<Seq<J>>,
    dispatched: Ghost<Seq<J>>,
    in_progress: Ghost<Seq<Option<J>>>,
    completed: Ghost<Seq<J>>,
    lost: Ghost<Seq<J>>,
}

impl<J> View for ThreadPool<J> {
    type V = PoolState<J>;

    closed spec fn view(&self) -> PoolState<J> {
        PoolState {
            workers: self.workers@,
            queue: self.channel@,
            connected: self.channel.connected(),
            phase: self.phase,
            terminates: self.terminates@,
            joined: self.joined as nat,
            submitted: self.submitted@,
            dispatched: self.dispatched@,
            in_progress: self.in_progress@,
            completed: self.completed@,
            lost: self.lost@,
        }
    }
}

impl<J> ThreadPool<J> {
    /// Whether the count of running workers that the pool keeps is right.
    pub closed spec fn counted(&self) -> bool {
        self.live == live(self.workers@)
    }

    /// The pool is well formed: its state satisfies the invariant.
    pub open spec fn wf(&self) -> bool {
        self@.inv() && self.counted()
    }

    /// Creates a pool of `size` workers, numbered from zero, all of them
    /// running and none of them with anything to receive yet.
    ///
    /// A pool without workers could never run a job, so `size` must be
    /// positive.
    pub fn new(size: usize) -> (pool: Self)
        requires
            size > 0,
        ensures
            pool.wf(),
            pool@ == PoolState::<J>::init(size as nat),
    {
        let mut workers: Vec<Worker> = Vec::new();
        let mut id: usize = 0;
        while id < size
            invariant
                id <= size,
                workers@ =~= PoolState::<J>::init(id as nat).workers,
            decreases size - id,
        {
            workers.push(Worker::new(id));
            id = id + 1;
        }
        let pool = ThreadPool {
            workers,
            channel: Channel::new(),
            phase: Phase::Open,
            terminates: Ghost(0),
            joined: 0,
            live: size,
            submitted: Ghost(Seq::empty()),
            dispatched: Ghost(Seq::empty()),
            in_progress: Ghost(Seq::new(size as nat, |i: int| None)),
            completed: Ghost(Seq::empty()),
            lost: Ghost(Seq::empty()),
        };
        proof {
            lemma_init_inv::<J>(size as nat);
        }
        pool
    }

    /// Submits a job: it is queued behind every signal sent before it, for
    /// whichever worker asks first once it is the oldest.
    ///
    /// The job is refused, and dropped, when teardown has begun and when no
    /// worker is left to receive it.
    pub fn execute(&mut self, job: J) -> (outcome: Result<(), PoolError>)
        requires
            old(self).wf(),
        ensures
            final(self).wf(),
            final(self)@ == old(self)@.submit(job),
            outcome == old(self)@.submit_outcome(),
    {
        if self.phase != Phase::Open {
            return Err(PoolError::ShuttingDown);
        }
        match self.channel.send(Signal::Work(job)) {
            Ok(()) => {
                self.submitted = Ghost(self.submitted@.push(job));
                Ok(())
            },
            Err(_) => Err(PoolError::ChannelClosed),
        }
    }

    /// The worker numbered `worker` asks for the next signal.
    ///
    /// It is handed the oldest signal in the channel and told what to do
    /// with it: run the job, or exit. It is told nothing when the channel is
    /// empty, which is where its thread has to wait and ask again; nothing
    /// while the job it was handed last has not ended; and nothing when it
    /// is not a running worker of this pool.
    pub fn receive(&mut self, worker: usize) -> (action: Option<Action<J>>)
        requires
            old(self).wf(),
        ensures
            final(self).wf(),
            final(self)@ == old(self)@.receive(worker as int),
            action == old(self)@.receive_outcome(worker as int),
    {
        if worker >= self.workers.len() {
            return None;
        }
        let mut record = self.workers[worker];
        if !record.is_idle() {
            return None;
        }
        proof {
            // A running worker keeps the receiving end alive.
            lemma_tally_zero(self.workers@, true);
        }
        match self.channel.receive() {
            None => None,
            Some(signal) => {
                proof {
                    lemma_receive_inv(old(self)@, worker as int);
                    lemma_tally_update(old(self).workers@, worker as int, record.after(signal), true);
                }
                let action = record.on_signal(signal);
                self.workers[worker] = record;
                match action {
                    Action::Run(job) => {
                        self.dispatched = Ghost(self.dispatched@.push(job));
                        self.in_progress = Ghost(self.in_progress@.update(worker as int, Some(job)));
                        Some(Action::Run(job))
                    },
                    Action::Exit => {
                        self.retire();
                        Some(Action::Exit)
                    },
                }
            },
        }
    }

    /// Records that the job handed to the worker numbered `worker` has run
    /// to its end, which frees the worker to receive again. Nothing changes
    /// when that worker is not in the middle of a job.
    pub fn job_done(&mut self, worker: usize)
        requires
            old(self).wf(),
        ensures
            final(self).wf(),
            final(self)@ == old(self)@.finish(worker as int),
    {
        if worker >= self.workers.len() {
            return ;
        }
        let mut record = self.workers[worker];
        if !record.busy {
            return ;
        }
        proof {
            lemma_finish_inv(self@, worker as int);
            lemma_tally_update(self.workers@, worker as int, record.after_job(), true);
        }
        record.on_job_done();
        self.workers[worker] = record;
        self.completed = Ghost(self.completed@.push(self.in_progress@[worker as int]->0));
        self.in_progress = Ghost(self.in_progress@.update(worker as int, None));
    }

    /// Records that the job handed to the worker numbered `worker` has
    /// failed, which ends that worker: the pool goes on with one worker
    /// fewer. Nothing changes when that worker is not in the middle of a
    /// job.
    pub fn job_failed(&mut self, worker: usize)
        requires
            old(self).wf(),
        ensures
            final(self).wf(),
            final(self)@ == old(self)@.fail(worker as int),
    {
        if worker >= self.workers.len() {
            return ;
        }
        let mut record = self.workers[worker];
        if !record.busy {
            return ;
        }
        proof {
            lemma_fail_inv(self@, worker as int);
            lemma_tally_update(self.workers@, worker as int, record.after_failure(), true);
        }
        record.on_failure();
        self.workers[worker] = record;
        self.lost = Ghost(self.lost@.push(self.in_progress@[worker as int]->0));
        self.in_progress = Ghost(self.in_progress@.update(worker as int, None));
        self.retire();
    }

    /// Begins the teardown: sends one terminate directive for each worker
    /// that is running, behind every job already queued. A worker that a
    /// failing job has brought down gets none.
    ///
    /// Fails, sending nothing, when no worker is left to receive. Asking
    /// again once teardown has begun changes nothing.
    pub fn shutdown(&mut self) -> (outcome: Result<(), PoolError>)
        requires
            old(self).wf(),
        ensures
            final(self).wf(),
            final(self)@ == old(self)@.shut_down(),
            outcome == old(self)@.shut_down_outcome(),
    {
        if self.phase != Phase::Open {
            return Ok(());
        }
        if !self.channel.is_connected() {
            return Err(PoolError::ChannelClosed);
        }
        proof {
            lemma_shut_down_inv(self@);
        }
        let outcome = Self::send_terminates(&mut self.channel, self.live);
        self.phase = Phase::Draining;
        self.terminates = Ghost(self.live as nat);
        outcome
    }

    /// Takes the next step of joining the workers, lowest number first.
    ///
    /// A worker that has left its loop on the terminate directive is joined;
    /// one that is still running blocks the join, and the caller has to let
    /// it receive before asking again. Joining a worker that a failing job
    /// brought down is an error. With the last worker joined the pool is
    /// closed.
    pub fn join_next(&mut self) -> (outcome: Result<JoinStep, PoolError>)
        requires
            old(self).wf(),
        ensures
            final(self).wf(),
            final(self)@ == old(self)@.join(),
            outcome == old(self)@.join_outcome(),
    {
        proof {
            lemma_join_inv(self@);
        }
        if self.joined >= self.workers.len() {
            return Ok(JoinStep::Done);
        }
        let next = self.workers[self.joined];
        if next.is_running() {
            Ok(JoinStep::Blocked(next.id))
        } else if next.failed {
            Err(PoolError::WorkerFailed(next.id))
        } else {
            self.joined = self.joined + 1;
            if self.joined == self.workers.len() {
                self.phase = Phase::Closed;
            }
            Ok(JoinStep::Joined(next.id))
        }
    }

    /// The number of workers the pool was built with.
    pub fn size(&self) -> (size: usize)
        ensures
            size == self@.size(),
    {
        self.workers.len()
    }

    /// Where the pool is in its life.
    pub fn phase(&self) -> (phase: Phase)
        ensures
            phase == self@.phase,
    {
        self.phase
    }

    /// The number of signals sent and not yet received.
    pub fn pending(&self) -> (pending: usize)
        ensures
            pending == self@.queue.len(),
    {
        self.channel.len()
    }

    /// The number of workers that are still running.
    pub fn live_workers(&self) -> (count: usize)
        requires
            self.wf(),
        ensures
            count == live(self@.workers),
    {
        self.live
    }

    /// The record of the worker numbered `worker`, if the pool has one.
    pub fn worker(&self, worker: usize) -> (record: Option<Worker>)
        ensures
            worker < self@.size() ==> record == Some(self@.workers[worker as int]),
            worker >= self@.size() ==> record is None,
    {
        if worker < self.workers.len() {
            Some(self.workers[worker])
        } else {
            None
        }
    }

    /// Sends `count` terminate directives, stopping at the first that cannot
    /// be sent.
    fn send_terminates(channel: &mut Channel<J>, count: usize) -> (outcome: Result<(), PoolError>)
        ensures
            final(channel).connected() == old(channel).connected(),
            old(channel).connected() || count == 0 ==> outcome == Ok::<(), PoolError>(()),
            old(channel).connected() ==> final(channel)@ == old(channel)@ + Seq::new(
                count as nat,
                |i: int| Signal::<J>::Terminate,
            ),
            !old(channel).connected() ==> final(channel)@ == old(channel)@,
            !old(channel).connected() && count > 0 ==> outcome == Err::<(), PoolError>(
                PoolError::ChannelClosed,
            ),
    {
        let mut sent: usize = 0;
        while sent < count
            invariant
                sent <= count,
                channel.connected() == old(channel).connected(),
                channel.connected() ==> channel@ =~= old(channel)@ + Seq::new(
                    sent as nat,
                    |i: int| Signal::<J>::Terminate,
                ),
                !channel.connected() ==> sent == 0 && channel@ == old(channel)@,
            decreases count - sent,
        {
            if channel.send(Signal::Terminate).is_err() {
                return Err(PoolError::ChannelClosed);
            }
            sent = sent + 1;
        }
        Ok(())
    }

    /// Takes one worker off the count of running workers and drops the
    /// channel's receiving end with the last.
    fn retire(&mut self)
        requires
            old(self).live > 0,
            old(self).channel.connected(),
        ensures
            final(self).live == old(self).live - 1,
            final(self).workers == old(self).workers,
            final(self).channel@ == old(self).channel@,
            final(self).channel.connected() == (final(self).live > 0),
            final(self).phase == old(self).phase,
            final(self).terminates == old(self).terminates,
            final(self).joined == old(self).joined,
            final(self).submitted == old(self).submitted,
            final(self).dispatched == old(self).dispatched,
            final(self).in_progress == old(self).in_progress,
            final(self).completed == old(self).completed,
            final(self).lost == old(self).lost,
    {
        self.live = self.live - 1;
        if self.live == 0 {
            self.channel.disconnect();
        }
    }
}

} // verus!
