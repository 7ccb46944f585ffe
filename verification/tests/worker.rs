use worker_pool::channel::Channel;
use worker_pool::signal::Signal;
use worker_pool::worker::{Action, Worker, WorkerState};

#[test]
fn new_worker_is_running() {
    let worker = Worker::new(3);
    assert_eq!(worker.id, 3);
    assert_eq!(worker.state, WorkerState::Running);
    assert!(!worker.busy);
    assert!(!worker.failed);
    assert!(worker.is_running());
    assert!(worker.is_idle());
}

#[test]
fn work_is_run_and_the_worker_keeps_running() {
    let mut worker = Worker::new(0);
    assert_eq!(worker.on_signal(Signal::Work(41u32)), Action::Run(41));
    assert!(worker.is_running());
    assert!(worker.busy);
    assert!(!worker.is_idle());
    worker.on_job_done();
    assert_eq!(worker, Worker::new(0));
    assert_eq!(worker.on_signal(Signal::Work(42u32)), Action::Run(42));
    worker.on_job_done();
    assert!(worker.is_idle());
}

#[test]
fn terminate_ends_the_worker() {
    let mut worker = Worker::new(5);
    assert_eq!(worker.on_signal(Signal::<u32>::Terminate), Action::Exit);
    assert_eq!(worker.state, WorkerState::Terminated);
    assert_eq!(worker.id, 5);
    assert!(!worker.busy);
    assert!(!worker.failed);
    assert!(!worker.is_running());
    assert!(!worker.is_idle());
}

#[test]
fn failure_ends_the_worker_and_is_remembered() {
    let mut worker = Worker::new(2);
    assert_eq!(worker.on_signal(Signal::Work(1u32)), Action::Run(1));
    worker.on_failure();
    assert_eq!(worker.state, WorkerState::Terminated);
    assert!(worker.failed);
    assert!(!worker.busy);
    assert_eq!(worker.id, 2);
    assert!(!worker.is_running());
}

#[test]
fn worker_loop_runs_jobs_until_told_to_exit() {
    let mut channel: Channel<u32> = Channel::new();
    for signal in [Signal::Work(1), Signal::Work(2), Signal::Work(3), Signal::Terminate] {
        assert!(channel.send(signal).is_ok());
    }
    let mut worker = Worker::new(0);
    let mut ran = Vec::new();
    while worker.is_running() {
        let signal = channel.receive().expect("a signal is queued");
        match worker.on_signal(signal) {
            Action::Run(job) => {
                ran.push(job);
                worker.on_job_done();
            },
            Action::Exit => {},
        }
    }
    assert_eq!(ran, vec![1, 2, 3]);
    assert!(channel.is_empty());
    assert_eq!(worker.state, WorkerState::Terminated);
    assert!(!worker.failed);
}

// The known race: work and terminate directives have no priority over each
// other. A worker that dequeues the terminate directive exits, whatever is
// queued behind it.
#[test]
fn work_queued_behind_terminate_is_not_run_by_that_worker() {
    let mut channel: Channel<u32> = Channel::new();
    assert!(channel.send(Signal::Work(1)).is_ok());
    assert!(channel.send(Signal::Terminate).is_ok());
    assert!(channel.send(Signal::Work(2)).is_ok());
    let mut worker = Worker::new(0);
    let mut ran = Vec::new();
    while worker.is_running() {
        let signal = channel.receive().expect("a signal is queued");
        match worker.on_signal(signal) {
            Action::Run(job) => {
                ran.push(job);
                worker.on_job_done();
            },
            Action::Exit => {},
        }
    }
    assert_eq!(ran, vec![1]);
    assert_eq!(channel.len(), 1);
    assert_eq!(channel.receive(), Some(Signal::Work(2)));
}
