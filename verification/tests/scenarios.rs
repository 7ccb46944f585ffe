use std::cell::{Cell, RefCell};
use std::rc::Rc;

use worker_pool::pool::ThreadPool;
use worker_pool::state::{JoinStep, Phase};
use worker_pool::worker::Action;

type Job = Box<dyn FnOnce()>;

// Stands in for the worker's thread: the worker asks for a signal and, if it
// is handed a job, runs it to completion and reports its end before it does
// anything else. Returns whether the worker was told to exit.
fn turn(pool: &mut ThreadPool<Job>, worker: usize) -> bool {
    match pool.receive(worker) {
        Some(Action::Run(job)) => {
            job();
            pool.job_done(worker);
            false
        },
        Some(Action::Exit) => true,
        None => false,
    }
}

// Tears the pool down as its owner would: asks for shutdown, then joins the
// workers in order, letting the worker it waits for take its turns. Returns
// the number of terminate directives received and the order of the joins.
fn teardown(pool: &mut ThreadPool<Job>) -> (usize, Vec<usize>) {
    pool.shutdown().expect("a worker is left to receive");
    let mut exits = 0;
    let mut joined = Vec::new();
    loop {
        match pool.join_next().expect("no job has failed") {
            JoinStep::Done => return (exits, joined),
            JoinStep::Joined(id) => joined.push(id),
            JoinStep::Blocked(id) => {
                assert!(pool.pending() > 0, "worker {} waits for a signal that never comes", id);
                if turn(pool, id) {
                    exits += 1;
                }
            },
        }
    }
}

#[test]
fn four_workers_run_eight_jobs() {
    let counter = Rc::new(Cell::new(0u32));
    let mut pool: ThreadPool<Job> = ThreadPool::new(4);
    for _ in 0..8 {
        let counter = Rc::clone(&counter);
        pool.execute(Box::new(move || counter.set(counter.get() + 1))).expect("the pool is open");
    }
    // The workers take turns while the pool is in use; what they leave is
    // run during teardown.
    for worker in [3, 1, 0, 2, 1] {
        turn(&mut pool, worker);
    }
    assert_eq!(counter.get(), 5);
    let (exits, joined) = teardown(&mut pool);
    assert_eq!(counter.get(), 8);
    assert_eq!(exits, 4);
    assert_eq!(joined, vec![0, 1, 2, 3]);
    assert_eq!(pool.phase(), Phase::Closed);
    assert_eq!(pool.pending(), 0);
}

#[test]
fn four_workers_run_eight_jobs_left_to_teardown() {
    let counter = Rc::new(Cell::new(0u32));
    let mut pool: ThreadPool<Job> = ThreadPool::new(4);
    for _ in 0..8 {
        let counter = Rc::clone(&counter);
        pool.execute(Box::new(move || counter.set(counter.get() + 1))).expect("the pool is open");
    }
    let (exits, joined) = teardown(&mut pool);
    assert_eq!(counter.get(), 8);
    assert_eq!(exits, 4);
    assert_eq!(joined, vec![0, 1, 2, 3]);
    assert_eq!(pool.phase(), Phase::Closed);
}

#[test]
fn single_worker_runs_jobs_strictly_in_sequence() {
    let log: Rc<RefCell<Vec<&'static str>>> = Rc::new(RefCell::new(Vec::new()));
    let mut pool: ThreadPool<Job> = ThreadPool::new(1);
    let first = Rc::clone(&log);
    pool.execute(Box::new(move || {
        first.borrow_mut().push("first begins");
        // The long-running part of the first job.
        first.borrow_mut().push("first ends");
    })).expect("the pool is open");
    let second = Rc::clone(&log);
    pool.execute(Box::new(move || second.borrow_mut().push("second begins")))
        .expect("the pool is open");

    // The worker is handed the first job only; the second stays queued until
    // the worker, done with the first, asks again.
    let action = pool.receive(0);
    assert_eq!(pool.pending(), 1);
    assert!(log.borrow().is_empty());
    // While the first job has not ended the worker is handed nothing.
    assert!(pool.receive(0).is_none());
    assert_eq!(pool.pending(), 1);
    match action {
        Some(Action::Run(job)) => job(),
        _ => panic!("the first job is queued"),
    }
    assert!(pool.receive(0).is_none());
    pool.job_done(0);
    assert_eq!(*log.borrow(), vec!["first begins", "first ends"]);
    assert!(!turn(&mut pool, 0));
    assert_eq!(*log.borrow(), vec!["first begins", "first ends", "second begins"]);

    let (exits, joined) = teardown(&mut pool);
    assert_eq!(exits, 1);
    assert_eq!(joined, vec![0]);
}

#[test]
fn teardown_without_jobs_completes() {
    let mut pool: ThreadPool<Job> = ThreadPool::new(2);
    assert_eq!(pool.shutdown(), Ok(()));
    assert_eq!(pool.pending(), 2);
    let (exits, joined) = teardown(&mut pool);
    assert_eq!(exits, 2);
    assert_eq!(joined, vec![0, 1]);
    assert_eq!(pool.phase(), Phase::Closed);
    assert_eq!(pool.pending(), 0);
    assert_eq!(pool.live_workers(), 0);
}

// Two jobs submitted back to back may be in progress on two workers at the
// same time, and either may finish first. Nothing is promised but that both
// complete.
#[test]
fn two_jobs_run_on_distinct_workers_in_either_order() {
    for first_to_finish in [0usize, 1] {
        let done = Rc::new(RefCell::new(Vec::new()));
        let mut pool: ThreadPool<Job> = ThreadPool::new(2);
        for name in ["a", "b"] {
            let done = Rc::clone(&done);
            pool.execute(Box::new(move || done.borrow_mut().push(name)))
                .expect("the pool is open");
        }
        // Both jobs are handed out before either has run.
        let mut in_progress = vec![(1, pool.receive(1)), (0, pool.receive(0))];
        assert_eq!(pool.pending(), 0);
        assert!(done.borrow().is_empty());
        for index in [first_to_finish, 0] {
            match in_progress.remove(index) {
                (worker, Some(Action::Run(job))) => {
                    job();
                    pool.job_done(worker);
                },
                _ => panic!("both jobs are queued"),
            }
        }
        let mut finished = done.borrow().clone();
        finished.sort();
        assert_eq!(finished, vec!["a", "b"]);
        let (exits, _) = teardown(&mut pool);
        assert_eq!(exits, 2);
    }
}

// What teardown does not wait for is decided by the order of the queue
// alone: a job queued before teardown is handed out before any worker is
// told to exit, but which worker runs it, and whether other workers have
// exited by then, is left open.
#[test]
fn queued_job_may_run_after_other_workers_have_exited() {
    let counter = Rc::new(Cell::new(0u32));
    let mut pool: ThreadPool<Job> = ThreadPool::new(3);
    let job_counter = Rc::clone(&counter);
    pool.execute(Box::new(move || job_counter.set(job_counter.get() + 1)))
        .expect("the pool is open");
    assert_eq!(pool.shutdown(), Ok(()));
    // Worker 2 is handed the job but is slow to run it; meanwhile the other
    // two workers are told to exit.
    let slow = pool.receive(2);
    assert!(turn(&mut pool, 0));
    assert!(turn(&mut pool, 1));
    assert_eq!(pool.live_workers(), 1);
    assert_eq!(counter.get(), 0);
    match slow {
        Some(Action::Run(job)) => job(),
        _ => panic!("the job is queued"),
    }
    pool.job_done(2);
    assert_eq!(counter.get(), 1);
    assert!(turn(&mut pool, 2));
    assert_eq!(pool.join_next(), Ok(JoinStep::Joined(0)));
    assert_eq!(pool.join_next(), Ok(JoinStep::Joined(1)));
    assert_eq!(pool.join_next(), Ok(JoinStep::Joined(2)));
    assert_eq!(pool.phase(), Phase::Closed);
}
