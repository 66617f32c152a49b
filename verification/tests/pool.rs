use server::pool::SpawnRequest;
use server::pool::ThreadPool;
use server::worker::Action;
use server::worker::WorkerState;
use std::cell::Cell;
use std::cell::RefCell;
use std::rc::Rc;
use std::sync::Arc;
use std::sync::Mutex;

type Job = Box<dyn FnOnce()>;

/// Starts every worker the pool asks for; the handle of worker `i` is `100 + i`.
fn build(threads_count: usize, stack_size: usize) -> ThreadPool<Job, usize> {
    let mut pool = ThreadPool::new(threads_count, stack_size);
    while let Some(request) = pool.next_spawn() {
        pool.spawned(100 + request.id);
    }
    pool
}

/// Lets `workers` workers take turns until each has stopped, running every
/// job it is handed. Returns how many jobs each worker ran.
fn drain(pool: &mut ThreadPool<Job, usize>, workers: usize) -> Vec<usize> {
    let mut states = vec![WorkerState::Running; workers];
    let mut ran = vec![0usize; workers];
    let mut waiting = 0;
    while waiting < workers {
        waiting = 0;
        for w in 0..workers {
            let (next, action) = pool.poll(states[w]);
            states[w] = next;
            match action {
                Action::Run(job) => {
                    job();
                    ran[w] += 1;
                }
                Action::Wait | Action::Exit => waiting += 1,
            }
        }
    }
    ran
}

fn counted(k: usize, workers: usize) -> usize {
    let counter = Rc::new(Cell::new(0usize));
    let mut pool = build(workers, 0);
    for _ in 0..k {
        let counter = Rc::clone(&counter);
        pool.execute(Box::new(move || counter.set(counter.get() + 1)));
    }
    let handles = pool.shutdown();
    assert_eq!(handles.len(), workers);
    let ran = drain(&mut pool, workers);
    assert_eq!(ran.iter().sum::<usize>(), k);
    counter.get()
}

#[test]
fn new_pool_is_open_and_has_no_worker_yet() {
    let pool: ThreadPool<Job, usize> = ThreadPool::new(3, 0);
    assert!(pool.is_open());
    assert_eq!(pool.worker_count(), 0);
    assert_eq!(pool.next_spawn(), Some(SpawnRequest { id: 0, stack_size: None }));
}

#[test]
fn workers_are_asked_for_in_index_order() {
    let mut pool: ThreadPool<Job, usize> = ThreadPool::new(3, 0);
    let mut ids = Vec::new();
    while let Some(request) = pool.next_spawn() {
        ids.push(request.id);
        pool.spawned(request.id);
    }
    assert_eq!(ids, vec![0, 1, 2]);
    assert_eq!(pool.worker_count(), 3);
    assert_eq!(pool.next_spawn(), None);
}

#[test]
fn single_worker_pool() {
    let mut pool = build(1, 0);
    assert_eq!(pool.worker_count(), 1);
    assert_eq!(pool.shutdown(), vec![(0, 100)]);
}

#[test]
fn zero_stack_size_asks_for_the_platform_default() {
    let pool: ThreadPool<Job, usize> = ThreadPool::new(2, 0);
    assert_eq!(pool.next_spawn().unwrap().stack_size, None);
}

#[test]
fn stack_size_is_passed_to_every_worker() {
    let two_mib = 2 * 1024 * 1024;
    let mut pool: ThreadPool<Job, usize> = ThreadPool::new(4, two_mib);
    let mut asked = 0;
    while let Some(request) = pool.next_spawn() {
        assert_eq!(request.stack_size, Some(two_mib));
        pool.spawned(request.id);
        asked += 1;
    }
    assert_eq!(asked, 4);
}

#[test]
fn smallest_stack_size_is_exact() {
    let pool: ThreadPool<Job, usize> = ThreadPool::new(1, 1);
    assert_eq!(pool.next_spawn(), Some(SpawnRequest { id: 0, stack_size: Some(1) }));
}

#[test]
fn spawn_failure_stops_construction() {
    let mut pool: ThreadPool<Job, usize> = ThreadPool::new(4, 0);
    pool.spawned(100);
    pool.spawned(101);
    assert_eq!(pool.next_spawn().unwrap().id, 2);
    pool.spawn_failed();
    assert_eq!(pool.next_spawn(), None);
    assert_eq!(pool.worker_count(), 2);
    assert!(pool.is_open());
}

#[test]
fn degraded_pool_runs_every_job_on_its_survivors() {
    let counter = Rc::new(Cell::new(0usize));
    let mut pool: ThreadPool<Job, usize> = ThreadPool::new(4, 0);
    pool.spawned(100);
    pool.spawned(101);
    pool.spawn_failed();
    for _ in 0..25 {
        let counter = Rc::clone(&counter);
        pool.execute(Box::new(move || counter.set(counter.get() + 1)));
    }
    assert_eq!(pool.shutdown(), vec![(0, 100), (1, 101)]);
    let ran = drain(&mut pool, 2);
    assert_eq!(ran.iter().sum::<usize>(), 25);
    assert_eq!(counter.get(), 25);
}

#[test]
fn first_spawn_failure_leaves_no_worker() {
    let mut pool: ThreadPool<Job, usize> = ThreadPool::new(2, 0);
    pool.spawn_failed();
    assert_eq!(pool.worker_count(), 0);
    assert_eq!(pool.next_spawn(), None);
    assert_eq!(pool.shutdown(), vec![]);
}

#[test]
fn no_job_runs_zero_times() {
    assert_eq!(counted(0, 3), 0);
}

#[test]
fn one_job_runs_once() {
    assert_eq!(counted(1, 3), 1);
}

#[test]
fn ten_jobs_run_once_each() {
    assert_eq!(counted(10, 3), 10);
}

#[test]
fn thousand_jobs_run_once_each() {
    assert_eq!(counted(1000, 4), 1000);
}

#[test]
fn thousand_jobs_on_one_worker() {
    assert_eq!(counted(1000, 1), 1000);
}

#[test]
fn jobs_are_handed_out_in_submission_order() {
    let log = Rc::new(RefCell::new(Vec::new()));
    let mut pool = build(3, 0);
    for i in 0..9usize {
        let log = Rc::clone(&log);
        pool.execute(Box::new(move || log.borrow_mut().push(i)));
    }
    pool.shutdown();
    drain(&mut pool, 3);
    assert_eq!(*log.borrow(), vec![0, 1, 2, 3, 4, 5, 6, 7, 8]);
}

#[test]
fn idle_worker_waits_while_pool_is_open() {
    let mut pool = build(2, 0);
    let (state, action) = pool.poll(WorkerState::Running);
    assert_eq!(state, WorkerState::Running);
    assert!(matches!(action, Action::Wait));
}

#[test]
fn worker_stops_once_closed_and_drained() {
    let mut pool = build(2, 0);
    pool.execute(Box::new(|| ()));
    pool.shutdown();
    let (state, action) = pool.poll(WorkerState::Running);
    assert_eq!(state, WorkerState::Running);
    assert!(matches!(action, Action::Run(_)));
    let (state, action) = pool.poll(state);
    assert_eq!(state, WorkerState::Stopped);
    assert!(matches!(action, Action::Exit));
}

#[test]
fn stopped_worker_takes_no_job() {
    let ran = Rc::new(Cell::new(false));
    let mut pool = build(1, 0);
    let flag = Rc::clone(&ran);
    pool.execute(Box::new(move || flag.set(true)));
    let (state, action) = pool.poll(WorkerState::Stopped);
    assert_eq!(state, WorkerState::Stopped);
    assert!(matches!(action, Action::Exit));
    assert!(!ran.get());
    match pool.poll(WorkerState::Running).1 {
        Action::Run(job) => job(),
        _ => panic!("the job was still pending"),
    }
    assert!(ran.get());
}

#[test]
fn shutdown_closes_and_returns_handles_in_construction_order() {
    let mut pool = build(4, 0);
    assert!(pool.is_open());
    assert_eq!(pool.shutdown(), vec![(0, 100), (1, 101), (2, 102), (3, 103)]);
    assert!(!pool.is_open());
    assert_eq!(pool.worker_count(), 4);
}

#[test]
fn second_shutdown_finds_no_handle() {
    let mut pool = build(3, 0);
    assert_eq!(pool.shutdown().len(), 3);
    assert_eq!(pool.shutdown(), vec![]);
    assert!(!pool.is_open());
}

#[test]
fn shutdown_during_construction_ends_it() {
    let mut pool: ThreadPool<Job, usize> = ThreadPool::new(3, 0);
    pool.spawned(100);
    assert_eq!(pool.shutdown(), vec![(0, 100)]);
    assert_eq!(pool.next_spawn(), None);
}

#[test]
fn every_slot_is_written_before_the_workers_stop() {
    let slots = Rc::new(RefCell::new(vec![usize::MAX; 1000]));
    let mut pool = build(4, 0);
    for i in 0..1000usize {
        let slots = Rc::clone(&slots);
        pool.execute(Box::new(move || slots.borrow_mut()[i] = i));
    }
    let handles = pool.shutdown();
    assert_eq!(handles.len(), 4);
    drain(&mut pool, 4);
    let slots = slots.borrow();
    for i in 0..1000usize {
        assert_eq!(slots[i], i);
    }
}

/// Lets the workers take turns in the order `schedule` gives, over and over,
/// until every worker has stopped. Returns which worker ran which job.
fn drain_by(pool: &mut ThreadPool<Job, usize>, workers: usize, schedule: &[usize]) -> Vec<usize> {
    let mut states = vec![WorkerState::Running; workers];
    let mut ran_by = Vec::new();
    while states.iter().any(|s| *s == WorkerState::Running) {
        for &w in schedule {
            let (next, action) = pool.poll(states[w]);
            states[w] = next;
            if let Action::Run(job) = action {
                job();
                ran_by.push(w);
            }
        }
    }
    ran_by
}

#[test]
fn four_workers_eight_jobs_log_a_permutation() {
    let log = Arc::new(Mutex::new(Vec::new()));
    let mut pool = build(4, 0);
    for i in 0..8u64 {
        let log = Arc::clone(&log);
        pool.execute(Box::new(move || log.lock().unwrap().push(i)));
    }
    assert_eq!(pool.shutdown().len(), 4);
    let ran_by = drain_by(&mut pool, 4, &[3, 1, 1, 0, 2, 3]);
    assert_eq!(ran_by.len(), 8);
    let mut seen = log.lock().unwrap().clone();
    assert_eq!(seen.len(), 8);
    seen.sort();
    assert_eq!(seen, vec![0, 1, 2, 3, 4, 5, 6, 7]);
}

#[test]
fn submissions_interleaved_with_polls_all_run_once() {
    let log = Rc::new(RefCell::new(Vec::new()));
    let mut pool = build(2, 0);
    let mut states = [WorkerState::Running, WorkerState::Running];
    for i in 0..20usize {
        let entry = Rc::clone(&log);
        pool.execute(Box::new(move || entry.borrow_mut().push(i)));
        if i % 3 == 0 {
            let w = i % 2;
            let (next, action) = pool.poll(states[w]);
            states[w] = next;
            if let Action::Run(job) = action {
                job();
            }
        }
    }
    pool.shutdown();
    drain_by(&mut pool, 2, &[1, 0]);
    assert_eq!(*log.borrow(), (0..20).collect::<Vec<usize>>());
}
