use workpool::pool::{
    JobQueue, PoolError, Received, ThreadPool, Worker, WorkerAction, WorkerPhase,
};

#[test]
fn pool_has_requested_workers() {
    let sizes = [1usize, 2, 4, 7];
    for &size in sizes.iter() {
        let p = ThreadPool::build(size).unwrap();
        assert_eq!(p.size(), size);
        for w in 0..size {
            assert_eq!(p.worker_phase(w), WorkerPhase::WaitingForJob);
        }
        assert!(p.is_accepting());
    }
}

#[test]
fn zero_workers_refused() {
    let r = ThreadPool::build(0);
    assert_eq!(r.err(), Some(PoolError::ZeroWorkers));
}

#[test]
fn submission_is_non_blocking_and_lossless() {
    let mut p = ThreadPool::new(1);
    for job in 0..5u64 {
        p.execute(job);
    }
    assert_eq!(p.pending_count(), 5);
    assert_eq!(p.completed_count(), 0);
}

#[test]
fn fifo_delivery_order() {
    let mut p = ThreadPool::new(1);
    p.execute(11);
    p.execute(22);
    p.execute(33);
    for _ in 0..3 {
        p.dispatch(0);
        p.finish(0);
    }
    let log = p.completions();
    assert_eq!(log.len(), 3);
    assert_eq!(log[0].job, 11);
    assert_eq!(log[1].job, 22);
    assert_eq!(log[2].job, 33);
}

#[test]
fn two_jobs_in_flight_at_once() {
    let mut p = ThreadPool::new(2);
    p.execute(1);
    p.execute(2);
    p.dispatch(0);
    p.dispatch(1);
    // both workers hold a job at the same time
    assert_eq!(p.worker_phase(0), WorkerPhase::Executing);
    assert_eq!(p.worker_phase(1), WorkerPhase::Executing);
    p.finish(1);
    p.finish(0);
    // completion order need not match submission order
    let log = p.completions();
    assert_eq!(log[0].job, 2);
    assert_eq!(log[0].by, 1);
    assert_eq!(log[1].job, 1);
    assert_eq!(log[1].by, 0);
}

#[test]
fn teardown_drains_the_backlog() {
    let mut p = ThreadPool::new(2);
    for job in 0..10u64 {
        p.execute(job);
    }
    p.close();
    assert_eq!(p.pending_count(), 0);
    assert_eq!(p.completed_count(), 10);
    let mut seen: Vec<u64> = p.completions().iter().map(|c| c.job).collect();
    seen.sort();
    let expected: Vec<u64> = (0..10).collect();
    assert_eq!(seen, expected);
}

#[test]
fn teardown_is_terminal() {
    let mut p = ThreadPool::new(3);
    p.execute(7);
    p.close();
    assert!(!p.is_accepting());
    assert_eq!(p.pending_count(), 0);
    for w in 0..3 {
        assert_eq!(p.worker_phase(w), WorkerPhase::Terminated);
    }
}

#[test]
fn counter_scenario_two_workers_four_jobs() {
    // two workers, four jobs; each completed job bumps the counter once
    let mut p = ThreadPool::new(2);
    for job in 0..4u64 {
        p.execute(job);
    }
    let mut counter = 0u64;
    // the two workers take and finish jobs side by side
    while p.pending_count() > 0 {
        p.dispatch(0);
        if p.pending_count() > 0 {
            p.dispatch(1);
        }
        if p.worker_phase(0) == WorkerPhase::Executing {
            p.finish(0);
            counter += 1;
        }
        if p.worker_phase(1) == WorkerPhase::Executing {
            p.finish(1);
            counter += 1;
        }
    }
    p.close();
    assert_eq!(counter, 4);
    assert_eq!(p.completed_count(), 4);
    let log = p.completions();
    for c in log.iter() {
        assert!(c.by < 2);
    }
    let mut jobs: Vec<u64> = log.iter().map(|c| c.job).collect();
    jobs.sort();
    assert_eq!(jobs, vec![0, 1, 2, 3]);
}

#[test]
fn queue_hands_jobs_back_in_order_then_signals_closed() {
    let mut q = JobQueue::new();
    assert_eq!(q.try_recv(), None);
    q.send(5);
    q.send(6);
    q.close();
    assert_eq!(q.try_recv(), Some(Received::Job(5)));
    assert_eq!(q.try_recv(), Some(Received::Job(6)));
    assert_eq!(q.try_recv(), Some(Received::Closed));
}

#[test]
fn worker_runs_then_exits_on_close() {
    let mut w = Worker::new(0);
    assert_eq!(w.ident(), 0);
    let a = w.receive(Received::Job(9));
    assert_eq!(a, WorkerAction::Run(9));
    let done = w.complete();
    assert_eq!(done, 9);
    let a = w.receive(Received::Closed);
    assert_eq!(a, WorkerAction::Exit);
}
