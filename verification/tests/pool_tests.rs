use coffee_oj_judge::pool::{PoolState, ThreadPoolBuilder};

#[test]
fn thread_pool_join() {
    let mut pool = PoolState::new(8);
    for _ in 0..20 {
        pool.enqueue_job();
    }
    assert_eq!(pool.active_thread_count(), 0);
    assert_eq!(pool.queued_job_count(), 20);
    pool.awake_all();
    while pool.queued_job_count() > 0 {
        pool.begin_job();
        pool.finish_job(0);
    }
    assert!(pool.is_idle());
    assert_eq!(pool.active_thread_count(), 0);
    assert_eq!(pool.queued_job_count(), 0);
}

#[test]
fn thread_pool_thread_panic() {
    let mut pool = PoolState::new(8);
    for _ in 0..20 {
        pool.enqueue_job();
    }
    pool.awake_all();
    let mut i = 0;
    while pool.queued_job_count() > 0 {
        pool.begin_job();
        if i % 4 == 0 {
            pool.job_panicked();
        } else {
            pool.finish_job(0);
        }
        i += 1;
    }
    assert_eq!(pool.active_thread_count(), 0);
    assert_eq!(pool.queued_job_count(), 0);
    assert_eq!(pool.panic_thread_count(), 5);
}

#[test]
fn fan_out_reenters_the_queue() {
    let mut pool = PoolState::new(4);
    pool.enqueue_job();
    pool.begin_job();
    pool.finish_job(3);
    assert_eq!(pool.queued_job_count(), 3);
    assert_eq!(pool.active_thread_count(), 0);
    assert!(!pool.is_idle());
    for _ in 0..3 {
        pool.begin_job();
        pool.finish_job(0);
    }
    assert!(pool.is_idle());
}

#[test]
fn gates_and_drain() {
    let mut pool = PoolState::new(2);
    pool.awake_all();
    pool.block_all();
    pool.enqueue_job();
    pool.enqueue_job();
    pool.stop_all();
    while pool.queued_job_count() > 0 {
        pool.drop_queued_job();
    }
    assert!(pool.is_idle());
}

#[test]
fn builder_uses_requested_size() {
    let builder = ThreadPoolBuilder::new().set_pool_size(8);
    assert_eq!(builder.resolved_size(), 8);
    let pool = PoolState::new(builder.resolved_size());
    assert_eq!(pool.max_thread_count(), 8);
}

#[test]
fn builder_defaults_to_hardware_parallelism() {
    let builder = ThreadPoolBuilder::new();
    assert!(builder.resolved_size() >= 1);
}
