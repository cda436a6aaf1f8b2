use dnq::pool::{Job, SharedCounter, Taken, WorkerPool};

#[test]
fn zero_size_pool_is_refused() {
    let pool = WorkerPool::<u64>::new(0);
    assert!(matches!(pool, Err(_)));
}

#[test]
fn pool_accounts_exactly_its_workers() {
    for size in 1..6usize {
        match WorkerPool::<u64>::new(size) {
            Ok(pool) => {
                assert_eq!(size, pool.workers);
                assert_eq!(0, pool.terminators);
                assert!(pool.jobs.is_empty());
            }
            Err(_) => panic!("a positive size must be accepted"),
        }
    }
}

#[test]
fn dispatch_is_fifo_and_exits_come_last() {
    let mut pool = match WorkerPool::<u64>::new(3) {
        Ok(pool) => pool,
        Err(_) => panic!("a positive size must be accepted"),
    };
    pool.execute(10);
    pool.execute(20);
    pool.execute(30);
    pool.shutdown();

    let mut seen: Vec<u64> = Vec::new();
    let mut exits: usize = 0;
    loop {
        match pool.take_next() {
            Taken::Work(job) => seen.push(job),
            Taken::Exit => exits += 1,
            Taken::Idle => break,
        }
    }
    assert_eq!(vec![10, 20, 30], seen);
    assert_eq!(3, exits);
    assert_eq!(0, pool.workers);
    assert_eq!(0, pool.terminators);
    assert!(pool.jobs.is_empty());
}

#[test]
fn no_job_before_shutdown_is_dropped() {
    let mut pool = match WorkerPool::<u64>::new(2) {
        Ok(pool) => pool,
        Err(_) => panic!("a positive size must be accepted"),
    };
    for job in 0..100u64 {
        pool.execute(job);
    }
    pool.shutdown();

    let mut seen: Vec<u64> = Vec::new();
    loop {
        match pool.take_next() {
            Taken::Work(job) => seen.push(job),
            Taken::Exit => {}
            Taken::Idle => break,
        }
    }
    let expected: Vec<u64> = (0..100u64).collect();
    assert_eq!(expected, seen);
}

#[test]
fn ten_counting_jobs_on_a_pool_of_two() {
    let mut pool = match WorkerPool::new(2) {
        Ok(pool) => pool,
        Err(_) => panic!("a positive size must be accepted"),
    };
    let counter = SharedCounter::new();
    for _ in 0..10 {
        pool.execute(counter.job());
    }
    pool.shutdown();

    let mut exits: usize = 0;
    loop {
        match pool.take_next() {
            Taken::Work(job) => job.run(),
            Taken::Exit => exits += 1,
            Taken::Idle => break,
        }
    }
    assert_eq!(10, counter.get());
    assert_eq!(2, exits);
    assert_eq!(0, pool.workers);
}

#[test]
fn counter_starts_at_zero() {
    let counter = SharedCounter::new();
    assert_eq!(0, counter.get());
}

#[test]
fn idle_pool_neither_exits_nor_blocks() {
    let mut pool = match WorkerPool::<u64>::new(1) {
        Ok(pool) => pool,
        Err(_) => panic!("a positive size must be accepted"),
    };
    assert!(matches!(pool.take_next(), Taken::Idle));
    assert_eq!(1, pool.workers);
}
