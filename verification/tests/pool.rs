use maker_web::rest::thread_pool::ThreadPool as FixedPool;
use maker_web::thread_pool::ThreadPool;

#[test]
fn new_pool_has_its_units_and_no_jobs() {
    let pool: ThreadPool<u32> = ThreadPool::new(4);
    assert_eq!(pool.workers(), 4);
    assert_eq!(pool.queued(), 0);
}

#[test]
fn jobs_are_handed_out_in_order_of_submission() {
    let mut pool: ThreadPool<u32> = ThreadPool::new(2);
    pool.add_const_job(10);
    pool.add_const_job(20);
    pool.add_const_job(30);
    assert_eq!(pool.queued(), 3);
    assert_eq!(pool.take_job(), Some(10));
    assert_eq!(pool.take_job(), Some(20));
    assert_eq!(pool.take_job(), None);
    assert_eq!(pool.queued(), 1);
    pool.job_done();
    assert_eq!(pool.take_job(), Some(30));
    assert_eq!(pool.take_job(), None);
    pool.job_done();
    pool.job_done();
    assert_eq!(pool.take_job(), None);
    assert_eq!(pool.queued(), 0);
    assert_eq!(pool.workers(), 2);
}

#[test]
fn every_job_runs_exactly_once_in_a_fixed_pool() {
    for units in 1..=5usize {
        for jobs in units..=12usize {
            let mut pool: ThreadPool<usize> = ThreadPool::new(units);
            for job in 0..jobs {
                pool.add_const_job(job);
            }
            let mut ran = vec![0u32; jobs];
            let mut busy = 0usize;
            loop {
                while let Some(job) = pool.take_job() {
                    ran[job] += 1;
                    busy += 1;
                    assert!(busy <= units);
                }
                if busy == 0 {
                    break;
                }
                pool.job_done();
                busy -= 1;
            }
            assert!(ran.iter().all(|&n| n == 1));
            assert_eq!(pool.queued(), 0);
            assert_eq!(pool.workers(), units);
        }
    }
}

#[test]
fn elastic_pool_grows_when_jobs_reach_the_units() {
    let mut pool: ThreadPool<u32> = ThreadPool::new(2);
    assert!(!pool.add_static_job(1));
    assert_eq!(pool.workers(), 2);
    assert!(pool.add_static_job(2));
    assert_eq!(pool.workers(), 3);
    assert!(pool.add_static_job(3));
    assert_eq!(pool.workers(), 4);
    assert_eq!(pool.queued(), 3);
}

#[test]
fn elastic_pool_shrinks_to_its_minimum() {
    let mut pool: ThreadPool<u32> = ThreadPool::new(1);
    assert!(pool.add_static_job(1));
    assert!(pool.add_static_job(2));
    assert!(pool.add_static_job(3));
    assert_eq!(pool.workers(), 4);
    assert_eq!(pool.take_job(), Some(1));
    assert_eq!(pool.take_job(), Some(2));
    assert_eq!(pool.take_job(), Some(3));
    assert!(pool.job_done());
    assert_eq!(pool.workers(), 3);
    assert!(pool.job_done());
    assert_eq!(pool.workers(), 2);
    assert!(pool.job_done());
    assert_eq!(pool.workers(), 1);
    assert!(!pool.job_done());
    assert_eq!(pool.workers(), 1);
}

#[test]
fn elastic_pool_keeps_its_units_while_they_are_needed() {
    let mut pool: ThreadPool<u32> = ThreadPool::new(1);
    assert!(pool.add_static_job(1));
    assert_eq!(pool.workers(), 2);
    assert_eq!(pool.take_job(), Some(1));
    pool.add_const_job(2);
    assert!(!pool.job_done());
    assert_eq!(pool.workers(), 2);
    assert_eq!(pool.take_job(), Some(2));
    assert!(pool.job_done());
    assert_eq!(pool.workers(), 1);
}

#[test]
fn pool_of_minimum_size_never_shrinks() {
    let mut pool: ThreadPool<u32> = ThreadPool::new(3);
    pool.add_const_job(1);
    assert_eq!(pool.take_job(), Some(1));
    assert!(!pool.job_done());
    assert_eq!(pool.workers(), 3);
    assert!(!pool.job_done());
}

#[test]
fn add_worker_counts_one_more_unit() {
    let mut pool: ThreadPool<u32> = ThreadPool::new(1);
    pool.add_worker();
    assert_eq!(pool.workers(), 2);
}

#[test]
fn run_queued_runs_every_waiting_job_once_and_in_order() {
    let mut pool: ThreadPool<&str> = ThreadPool::new(3);
    pool.add_static_job("a");
    pool.add_static_job("b");
    pool.add_static_job("c");
    pool.add_static_job("d");
    assert_eq!(pool.run_queued(), vec!["a", "b", "c", "d"]);
    assert_eq!(pool.queued(), 0);
    assert_eq!(pool.take_job(), None);
    assert_eq!(pool.run_queued(), Vec::<&str>::new());
}

#[test]
fn launch_makes_one_unit_for_each_job() {
    let mut pool = FixedPool::launch(vec!["x", "y", "z"]);
    assert_eq!(pool.pool.workers(), 3);
    assert_eq!(pool.pool.queued(), 3);
    assert_eq!(pool.pool.take_job(), Some("x"));
    assert_eq!(pool.pool.take_job(), Some("y"));
    assert_eq!(pool.pool.take_job(), Some("z"));
    assert_eq!(pool.pool.take_job(), None);
}

#[test]
fn fixed_pool_queues_what_is_added() {
    let mut pool: FixedPool<u8> = FixedPool::new(2);
    pool.add(1);
    pool.add(2);
    pool.add(3);
    assert_eq!(pool.pool.workers(), 2);
    assert_eq!(pool.pool.run_queued(), vec![1, 2, 3]);
}

#[test]
fn plain_pool_queues_what_is_added() {
    let mut pool: maker_web::other::thread_pool::ThreadPool<u8> =
        maker_web::other::thread_pool::ThreadPool::new(2);
    pool.add_job(4);
    pool.add_job(5);
    assert_eq!(pool.pool.workers(), 2);
    assert_eq!(pool.pool.take_job(), Some(4));
    assert_eq!(pool.pool.take_job(), Some(5));
    assert_eq!(pool.pool.take_job(), None);
}
