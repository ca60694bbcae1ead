use simple_tcp_server::error::PoolError;
use simple_tcp_server::pool::ThreadPool;
use simple_tcp_server::worker::{WorkerAction, WorkerState};
use std::cell::{Cell, RefCell};
use std::rc::Rc;

type Job = Box<dyn FnOnce()>;

fn counting_job(counter: &Rc<Cell<usize>>) -> Job {
    let counter = Rc::clone(counter);
    Box::new(move || counter.set(counter.get() + 1))
}

/// Lets the workers take turns, one message each, until none is running.
/// Returns the number of turns taken.
fn drain(pool: &mut ThreadPool<Job, usize>) -> usize {
    let mut turns = 0;
    while pool.running() > 0 {
        for worker in 0..pool.size() {
            if pool.worker_state(worker) == Some(WorkerState::Running) {
                match pool.receive(worker) {
                    WorkerAction::Run(job) => job(),
                    WorkerAction::Exit => {}
                    WorkerAction::Wait => panic!("a worker waits after shutdown"),
                }
                turns += 1;
            }
        }
    }
    turns
}

#[test]
fn hundred_jobs_on_four_workers_each_run_once() {
    let counter = Rc::new(Cell::new(0usize));
    let mut pool: ThreadPool<Job, usize> = ThreadPool::new(4, |id| id).unwrap();
    for _ in 0..100 {
        pool.execute(counting_job(&counter)).unwrap();
    }
    let threads = pool.shutdown();
    assert_eq!(threads, vec![0, 1, 2, 3]);
    assert_eq!(pool.pending(), 104);
    let turns = drain(&mut pool);
    assert_eq!(turns, 104);
    assert_eq!(counter.get(), 100);
    assert_eq!(pool.running(), 0);
    assert_eq!(pool.pending(), 0);
    for worker in 0..4 {
        assert_eq!(pool.worker_state(worker), Some(WorkerState::Terminated));
    }
}

#[test]
fn size_zero_is_refused_and_starts_no_thread() {
    let started = Cell::new(0usize);
    let result: Result<ThreadPool<Job, usize>, PoolError> = ThreadPool::new(0, |id| {
        started.set(started.get() + 1);
        id
    });
    assert!(matches!(result, Err(PoolError::InvalidSize)));
    assert_eq!(started.get(), 0);
}

#[test]
fn every_positive_size_gives_that_many_running_workers() {
    for size in 1..=16usize {
        let started = RefCell::new(Vec::new());
        let mut pool: ThreadPool<Job, usize> = ThreadPool::new(size, |id| {
            started.borrow_mut().push(id);
            id + 100
        })
        .unwrap();
        assert_eq!(pool.size(), size);
        assert_eq!(pool.running(), size);
        assert_eq!(pool.pending(), 0);
        assert!(!pool.is_shut_down());
        assert_eq!(*started.borrow(), (0..size).collect::<Vec<usize>>());
        for worker in 0..size {
            assert_eq!(pool.worker_state(worker), Some(WorkerState::Running));
        }
        assert_eq!(pool.worker_state(size), None);
        let threads = pool.shutdown();
        assert_eq!(threads, (100..100 + size).collect::<Vec<usize>>());
    }
}

#[test]
fn single_worker_runs_jobs_in_submission_order() {
    let log = Rc::new(RefCell::new(Vec::new()));
    let mut pool: ThreadPool<Job, usize> = ThreadPool::new(1, |id| id).unwrap();
    for n in 0..20u32 {
        let log = Rc::clone(&log);
        pool.execute(Box::new(move || log.borrow_mut().push(n))).unwrap();
    }
    pool.shutdown();
    drain(&mut pool);
    assert_eq!(*log.borrow(), (0..20).collect::<Vec<u32>>());
}

#[test]
fn jobs_are_claimed_in_submission_order_by_whoever_asks() {
    let mut pool: ThreadPool<u32, usize> = ThreadPool::new(3, |id| id).unwrap();
    for n in 10..16u32 {
        pool.execute(n).unwrap();
    }
    let askers = [2usize, 0, 0, 1, 2, 1];
    let mut handed_out = Vec::new();
    for worker in askers {
        match pool.receive(worker) {
            WorkerAction::Run(job) => handed_out.push(job),
            _ => panic!("a job was queued"),
        }
    }
    assert_eq!(handed_out, vec![10, 11, 12, 13, 14, 15]);
    assert!(matches!(pool.receive(0), WorkerAction::Wait));
}

#[test]
fn interleaved_submissions_and_turns_run_each_job_once() {
    let runs = Rc::new(RefCell::new(vec![0usize; 30]));
    let mut pool: ThreadPool<Job, usize> = ThreadPool::new(3, |id| id).unwrap();
    for n in 0..30usize {
        let runs = Rc::clone(&runs);
        pool.execute(Box::new(move || runs.borrow_mut()[n] += 1)).unwrap();
        if n % 2 == 1 {
            match pool.receive(n % 3) {
                WorkerAction::Run(job) => job(),
                _ => panic!("a job was queued"),
            }
        }
    }
    pool.shutdown();
    drain(&mut pool);
    assert_eq!(*runs.borrow(), vec![1usize; 30]);
}

#[test]
fn worker_waits_on_empty_queue_before_shutdown() {
    let mut pool: ThreadPool<u32, usize> = ThreadPool::new(2, |id| id).unwrap();
    assert!(matches!(pool.receive(0), WorkerAction::Wait));
    assert!(matches!(pool.receive(1), WorkerAction::Wait));
    assert_eq!(pool.running(), 2);
    pool.execute(5).unwrap();
    assert!(matches!(pool.receive(1), WorkerAction::Run(5)));
    assert!(matches!(pool.receive(0), WorkerAction::Wait));
}

#[test]
fn unknown_worker_is_told_to_exit_and_takes_nothing() {
    let mut pool: ThreadPool<u32, usize> = ThreadPool::new(2, |id| id).unwrap();
    pool.execute(1).unwrap();
    assert!(matches!(pool.receive(2), WorkerAction::Exit));
    assert!(matches!(pool.receive(usize::MAX), WorkerAction::Exit));
    assert_eq!(pool.pending(), 1);
    assert_eq!(pool.running(), 2);
}

#[test]
fn terminated_worker_is_never_reused() {
    let mut pool: ThreadPool<u32, usize> = ThreadPool::new(2, |id| id).unwrap();
    pool.shutdown();
    assert!(matches!(pool.receive(0), WorkerAction::Exit));
    assert_eq!(pool.worker_state(0), Some(WorkerState::Terminated));
    assert_eq!(pool.pending(), 1);
    assert!(matches!(pool.receive(0), WorkerAction::Exit));
    assert_eq!(pool.pending(), 1);
    assert_eq!(pool.running(), 1);
    assert!(matches!(pool.receive(1), WorkerAction::Exit));
    assert_eq!(pool.pending(), 0);
    assert_eq!(pool.running(), 0);
}

#[test]
fn execute_after_shutdown_is_refused() {
    let mut pool: ThreadPool<u32, usize> = ThreadPool::new(2, |id| id).unwrap();
    pool.execute(1).unwrap();
    pool.shutdown();
    assert_eq!(pool.execute(2), Err(PoolError::ChannelClosed));
    assert_eq!(pool.pending(), 3);
    assert!(matches!(pool.receive(0), WorkerAction::Run(1)));
    assert!(matches!(pool.receive(0), WorkerAction::Exit));
    assert!(matches!(pool.receive(1), WorkerAction::Exit));
    assert_eq!(pool.execute(3), Err(PoolError::ChannelClosed));
    assert_eq!(pool.pending(), 0);
}

#[test]
fn shutdown_runs_once() {
    let mut pool: ThreadPool<u32, &'static str> =
        ThreadPool::new(3, |id| ["a", "b", "c"][id]).unwrap();
    assert!(!pool.is_shut_down());
    assert_eq!(pool.shutdown(), vec!["a", "b", "c"]);
    assert!(pool.is_shut_down());
    assert_eq!(pool.pending(), 3);
    assert_eq!(pool.shutdown(), Vec::<&'static str>::new());
    assert_eq!(pool.pending(), 3);
    assert_eq!(pool.running(), 3);
}

#[test]
fn pending_jobs_survive_shutdown() {
    let counter = Rc::new(Cell::new(0usize));
    let mut pool: ThreadPool<Job, usize> = ThreadPool::new(2, |id| id).unwrap();
    for _ in 0..7 {
        pool.execute(counting_job(&counter)).unwrap();
    }
    pool.shutdown();
    assert_eq!(counter.get(), 0);
    assert_eq!(drain(&mut pool), 9);
    assert_eq!(counter.get(), 7);
}

#[test]
fn busy_worker_does_not_hold_up_the_others() {
    let done = Rc::new(Cell::new(0usize));
    let mut pool: ThreadPool<Job, usize> = ThreadPool::new(4, |id| id).unwrap();
    pool.execute(counting_job(&done)).unwrap();
    let long_job = match pool.receive(0) {
        WorkerAction::Run(job) => job,
        _ => panic!("a job was queued"),
    };
    // Worker 0 is still busy with its job when the pool is disposed of.
    let threads = pool.shutdown();
    assert_eq!(threads.len(), 4);
    assert_eq!(pool.pending(), 4);
    for worker in 1..4 {
        assert!(matches!(pool.receive(worker), WorkerAction::Exit));
        assert_eq!(pool.worker_state(worker), Some(WorkerState::Terminated));
    }
    assert_eq!(pool.running(), 1);
    assert_eq!(pool.worker_state(0), Some(WorkerState::Running));
    long_job();
    assert_eq!(done.get(), 1);
    assert!(matches!(pool.receive(0), WorkerAction::Exit));
    assert_eq!(pool.running(), 0);
    assert_eq!(pool.pending(), 0);
}

#[test]
fn terminate_comes_only_after_every_earlier_job() {
    let mut pool: ThreadPool<u32, usize> = ThreadPool::new(2, |id| id).unwrap();
    pool.execute(1).unwrap();
    pool.execute(2).unwrap();
    pool.execute(3).unwrap();
    pool.shutdown();
    assert!(matches!(pool.receive(1), WorkerAction::Run(1)));
    assert!(matches!(pool.receive(1), WorkerAction::Run(2)));
    assert!(matches!(pool.receive(0), WorkerAction::Run(3)));
    assert_eq!(pool.running(), 2);
    assert!(matches!(pool.receive(0), WorkerAction::Exit));
    assert!(matches!(pool.receive(1), WorkerAction::Exit));
    assert_eq!(pool.running(), 0);
}

#[test]
fn error_descriptions() {
    assert_eq!(PoolError::InvalidSize.describe(), "pool size must be greater than zero");
    assert_eq!(PoolError::ChannelClosed.describe(), "dispatch channel is closed");
    assert_ne!(PoolError::InvalidSize, PoolError::ChannelClosed);
}

type Fallible = Box<dyn FnOnce() -> Result<(), String>>;

fn fallible_pool() -> (ThreadPool<Fallible, usize>, Rc<Cell<usize>>) {
    let done = Rc::new(Cell::new(0usize));
    let mut pool: ThreadPool<Fallible, usize> = ThreadPool::new(2, |id| id).unwrap();
    pool.execute(Box::new(|| Err(String::from("boom")))).unwrap();
    for _ in 0..3 {
        let done = Rc::clone(&done);
        pool.execute(Box::new(move || {
            done.set(done.get() + 1);
            Ok(())
        }))
        .unwrap();
    }
    (pool, done)
}

#[test]
fn failed_job_that_ends_its_thread_leaves_its_worker_unterminated() {
    let (mut pool, done) = fallible_pool();
    let failed = match pool.receive(0) {
        WorkerAction::Run(job) => job(),
        _ => panic!("a job was queued"),
    };
    assert_eq!(failed, Err(String::from("boom")));
    // The thread of worker 0 ended with the job: worker 0 never asks again.
    pool.shutdown();
    let mut turns = 0;
    loop {
        match pool.receive(1) {
            WorkerAction::Run(job) => assert_eq!(job(), Ok(())),
            WorkerAction::Exit => break,
            WorkerAction::Wait => panic!("a worker waits after shutdown"),
        }
        turns += 1;
    }
    assert_eq!(turns, 3);
    assert_eq!(done.get(), 3);
    assert_eq!(pool.worker_state(1), Some(WorkerState::Terminated));
    assert_eq!(pool.worker_state(0), Some(WorkerState::Running));
    assert_eq!(pool.running(), 1);
    assert_eq!(pool.pending(), 1);
}

#[test]
fn worker_whose_thread_survives_a_failed_job_keeps_serving() {
    let (mut pool, done) = fallible_pool();
    let mut failures = 0;
    loop {
        match pool.receive(0) {
            WorkerAction::Run(job) => {
                if job().is_err() {
                    failures += 1;
                }
            }
            WorkerAction::Wait => break,
            WorkerAction::Exit => panic!("nobody told the worker to terminate"),
        }
    }
    assert_eq!(failures, 1);
    assert_eq!(done.get(), 3);
    assert_eq!(pool.running(), 2);
    pool.shutdown();
    assert!(matches!(pool.receive(0), WorkerAction::Exit));
    assert!(matches!(pool.receive(1), WorkerAction::Exit));
    assert_eq!(pool.running(), 0);
}

#[test]
fn one_worker_finishes_alone_while_the_others_stand_still() {
    let done = Rc::new(Cell::new(0usize));
    let mut pool: ThreadPool<Job, usize> = ThreadPool::new(3, |id| id).unwrap();
    for _ in 0..5 {
        pool.execute(counting_job(&done)).unwrap();
    }
    pool.shutdown();
    // Five queued jobs and its own termination message: six turns.
    for _ in 0..5 {
        match pool.receive(2) {
            WorkerAction::Run(job) => job(),
            _ => panic!("a job was queued"),
        }
        assert_eq!(pool.worker_state(2), Some(WorkerState::Running));
    }
    assert!(matches!(pool.receive(2), WorkerAction::Exit));
    assert_eq!(pool.worker_state(2), Some(WorkerState::Terminated));
    assert_eq!(done.get(), 5);
    assert_eq!(pool.running(), 2);
    assert_eq!(pool.pending(), 2);
    assert_eq!(pool.worker_state(0), Some(WorkerState::Running));
    assert_eq!(pool.worker_state(1), Some(WorkerState::Running));
}
