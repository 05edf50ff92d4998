use worker_pool::dispatch::{Dispatcher, PoolError, WorkerState};
use worker_pool::message::Message;

fn job_of(m: Option<Message<u32>>) -> u32 {
    match m {
        Some(Message::NewJob(j)) => j,
        Some(Message::Terminate) => panic!("expected a job, got a terminate signal"),
        None => panic!("expected a job, got nothing"),
    }
}

#[test]
fn zero_workers_refused() {
    let r = Dispatcher::<u32>::new(0);
    assert!(matches!(r, Err(PoolError::ZeroWorkers)));
}

#[test]
fn one_or_more_workers_accepted() {
    for size in [1usize, 2, 4, 16] {
        let d = Dispatcher::<u32>::new(size).ok().unwrap();
        assert_eq!(d.worker_count(), size);
        assert_eq!(d.pending(), 0);
        assert!(!d.teardown_begun());
        for id in 0..size {
            assert_eq!(d.state(id), WorkerState::Waiting);
        }
    }
}

#[test]
fn empty_queue_gives_nothing() {
    let mut d = Dispatcher::<u32>::new(2).ok().unwrap();
    assert!(d.next_message(0).is_none());
    assert_eq!(d.state(0), WorkerState::Waiting);
}

#[test]
fn jobs_leave_in_submission_order() {
    let mut d = Dispatcher::<u32>::new(1).ok().unwrap();
    for j in 10..15u32 {
        assert_eq!(d.submit(j), Ok(()));
    }
    assert_eq!(d.pending(), 5);
    for j in 10..15u32 {
        assert_eq!(job_of(d.next_message(0)), j);
        assert_eq!(d.state(0), WorkerState::Executing);
        d.job_done(0);
        assert_eq!(d.state(0), WorkerState::Waiting);
    }
    assert_eq!(d.pending(), 0);
}

#[test]
fn n_workers_take_n_distinct_jobs() {
    let n: usize = 4;
    let mut d = Dispatcher::<u32>::new(n).ok().unwrap();
    for j in 0..n as u32 {
        d.submit(j).unwrap();
    }
    let mut taken = Vec::new();
    for id in 0..n {
        taken.push(job_of(d.next_message(id)));
    }
    assert_eq!(taken, vec![0, 1, 2, 3]);
    for id in 0..n {
        assert_eq!(d.state(id), WorkerState::Executing);
    }
    for id in 0..n {
        d.job_done(id);
    }
    d.begin_teardown();
    for id in 0..n {
        assert!(matches!(d.next_message(id), Some(Message::Terminate)));
    }
}

#[test]
fn every_job_runs_once_across_teardown() {
    let k: u32 = 1000;
    let n: usize = 3;
    let mut d = Dispatcher::<u32>::new(n).ok().unwrap();
    for j in 0..k {
        d.submit(j).unwrap();
    }
    d.begin_teardown();
    let mut counter: u32 = 0;
    let mut seen = vec![false; k as usize];
    let mut id: usize = 0;
    while (0..n).any(|w| d.state(w) != WorkerState::Terminating) {
        if d.state(id) == WorkerState::Waiting {
            match d.next_message(id) {
                Some(Message::NewJob(j)) => {
                    assert!(!seen[j as usize]);
                    seen[j as usize] = true;
                    counter += 1;
                    d.job_done(id);
                }
                Some(Message::Terminate) => {}
                None => panic!("a running worker found the queue empty during teardown"),
            }
        }
        id = (id + 1) % n;
    }
    for w in 0..n {
        d.worker_joined(w);
        assert_eq!(d.state(w), WorkerState::Stopped);
    }
    assert_eq!(counter, k);
    assert!(seen.iter().all(|s| *s));
    assert_eq!(d.pending(), 0);
}

#[test]
fn idle_teardown_signals_each_worker_once() {
    let n: usize = 3;
    let mut d = Dispatcher::<u32>::new(n).ok().unwrap();
    d.begin_teardown();
    assert!(d.teardown_begun());
    assert_eq!(d.pending(), n);
    for id in 0..n {
        assert!(matches!(d.next_message(id), Some(Message::Terminate)));
        assert_eq!(d.state(id), WorkerState::Terminating);
    }
    assert_eq!(d.pending(), 0);
    for id in 0..n {
        d.worker_joined(id);
    }
}

#[test]
fn submit_after_teardown_refused() {
    let mut d = Dispatcher::<u32>::new(2).ok().unwrap();
    d.submit(1).unwrap();
    d.begin_teardown();
    assert_eq!(d.submit(2), Err(PoolError::Closed));
    assert_eq!(d.pending(), 3);
    assert_eq!(job_of(d.next_message(1)), 1);
}

#[test]
fn two_pools_stay_apart() {
    let mut a = Dispatcher::<u32>::new(1).ok().unwrap();
    let mut b = Dispatcher::<u32>::new(1).ok().unwrap();
    a.submit(7).unwrap();
    assert!(b.next_message(0).is_none());
    b.submit(8).unwrap();
    assert_eq!(job_of(a.next_message(0)), 7);
    assert_eq!(job_of(b.next_message(0)), 8);
    assert_eq!(a.pending(), 0);
    assert_eq!(b.pending(), 0);
}

#[test]
fn message_kinds() {
    assert!(Message::<u32>::Terminate.is_terminate());
    assert!(!Message::NewJob(3u32).is_terminate());
}
