use pool_server::pool::{PoolError, ThreadPool, WorkerState, WorkerStep};
use pool_server::queue::{Dequeued, JobQueue, QueueError};

fn busy_workers(pool: &ThreadPool) -> usize {
    (0..pool.size()).filter(|w| matches!(pool.worker_state(*w), WorkerState::Busy(_))).count()
}

#[test]
fn queue_is_first_in_first_out() {
    let mut queue = JobQueue::new();
    assert_eq!(queue.enqueue(), Ok(0));
    assert_eq!(queue.enqueue(), Ok(1));
    assert_eq!(queue.enqueue(), Ok(2));
    assert_eq!(queue.pending_len(), 3);
    assert_eq!(queue.dequeue(), Dequeued::Job(0));
    assert_eq!(queue.dequeue(), Dequeued::Job(1));
    assert_eq!(queue.enqueue(), Ok(3));
    assert_eq!(queue.dequeue(), Dequeued::Job(2));
    assert_eq!(queue.dequeue(), Dequeued::Job(3));
    assert_eq!(queue.pending_len(), 0);
}

#[test]
fn empty_open_queue_makes_the_consumer_wait() {
    let mut queue = JobQueue::new();
    assert!(!queue.is_closed());
    assert_eq!(queue.dequeue(), Dequeued::Wait);
    assert_eq!(queue.dequeue(), Dequeued::Wait);
    assert_eq!(queue.enqueue(), Ok(0));
    assert_eq!(queue.dequeue(), Dequeued::Job(0));
    assert_eq!(queue.dequeue(), Dequeued::Wait);
}

#[test]
fn closed_queue_refuses_and_drains() {
    let mut queue = JobQueue::new();
    assert_eq!(queue.enqueue(), Ok(0));
    assert_eq!(queue.enqueue(), Ok(1));
    queue.close();
    assert!(queue.is_closed());
    assert_eq!(queue.enqueue(), Err(QueueError::QueueClosed));
    assert_eq!(queue.pending_len(), 2);
    assert_eq!(queue.dequeue(), Dequeued::Job(0));
    assert_eq!(queue.dequeue(), Dequeued::Job(1));
    assert_eq!(queue.dequeue(), Dequeued::EndOfStream);
    assert_eq!(queue.dequeue(), Dequeued::EndOfStream);
}

#[test]
fn closing_twice_is_closing_once() {
    let mut queue = JobQueue::new();
    assert_eq!(queue.enqueue(), Ok(0));
    queue.close();
    queue.close();
    assert!(queue.is_closed());
    assert_eq!(queue.pending_len(), 1);
    assert_eq!(queue.dequeue(), Dequeued::Job(0));
    assert_eq!(queue.dequeue(), Dequeued::EndOfStream);
}

#[test]
fn fresh_queue_can_number_jobs() {
    let queue = JobQueue::new();
    assert!(queue.can_number());
}

#[test]
fn pool_of_none_is_refused() {
    assert!(matches!(ThreadPool::new(0), Err(PoolError::ZeroWorkers)));
    assert!(matches!(ThreadPool::new(0), Err(PoolError::ZeroWorkers)));
}

#[test]
fn new_pool_has_idle_workers() {
    for n in [1usize, 2, 4, 17] {
        let pool = ThreadPool::new(n).expect("a pool");
        assert_eq!(pool.size(), n);
        assert!(!pool.is_shut_down());
        assert!(!pool.is_joined());
        assert!(pool.can_number());
        for w in 0..n {
            assert_eq!(pool.worker_state(w), WorkerState::Idle);
        }
    }
}

#[test]
fn jobs_are_handed_out_in_submission_order() {
    let mut pool = ThreadPool::new(3).expect("a pool");
    assert_eq!(pool.submit(), Ok(0));
    assert_eq!(pool.submit(), Ok(1));
    assert_eq!(pool.submit(), Ok(2));
    assert_eq!(pool.next_job(2), WorkerStep::Run(0));
    assert_eq!(pool.next_job(0), WorkerStep::Run(1));
    assert_eq!(pool.next_job(1), WorkerStep::Run(2));
    assert_eq!(pool.worker_state(2), WorkerState::Busy(0));
    assert_eq!(pool.worker_state(0), WorkerState::Busy(1));
    assert_eq!(pool.worker_state(1), WorkerState::Busy(2));
}

#[test]
fn idle_worker_waits_on_an_empty_queue() {
    let mut pool = ThreadPool::new(2).expect("a pool");
    assert_eq!(pool.next_job(0), WorkerStep::Wait);
    assert_eq!(pool.worker_state(0), WorkerState::Idle);
    assert_eq!(pool.submit(), Ok(0));
    assert_eq!(pool.next_job(0), WorkerStep::Run(0));
    assert_eq!(pool.next_job(1), WorkerStep::Wait);
    assert_eq!(pool.finish_job(0), 0);
    assert_eq!(pool.worker_state(0), WorkerState::Idle);
}

#[test]
fn no_more_jobs_run_than_there_are_workers() {
    for n in 1usize..5 {
        let mut pool = ThreadPool::new(n).expect("a pool");
        for _ in 0..10 {
            pool.submit().expect("an open pool");
        }
        let mut done = 0;
        while done < 10 {
            for w in 0..n {
                if pool.worker_state(w) == WorkerState::Idle {
                    pool.next_job(w);
                }
                assert!(busy_workers(&pool) <= n);
            }
            for w in 0..n {
                if matches!(pool.worker_state(w), WorkerState::Busy(_)) {
                    pool.finish_job(w);
                    done += 1;
                }
            }
        }
        assert_eq!(done, 10);
        assert_eq!(busy_workers(&pool), 0);
    }
}

#[test]
fn every_job_runs_exactly_once_before_the_join() {
    let mut pool = ThreadPool::new(3).expect("a pool");
    let mut runs = vec![0u32; 8];
    for expected in 0..8u64 {
        assert_eq!(pool.submit(), Ok(expected));
    }
    assert_eq!(pool.next_job(1), WorkerStep::Run(0));
    pool.shutdown();
    assert!(pool.is_shut_down());
    assert!(!pool.is_joined());
    let mut turn = 0usize;
    while !pool.is_joined() {
        let w = turn % 3;
        turn += 1;
        match pool.worker_state(w) {
            WorkerState::Idle => {
                pool.next_job(w);
            }
            WorkerState::Busy(ticket) => {
                assert_eq!(pool.finish_job(w), ticket);
                runs[ticket as usize] += 1;
            }
            WorkerState::Finished => {}
        }
    }
    assert_eq!(runs, vec![1u32; 8]);
    for w in 0..3 {
        assert_eq!(pool.worker_state(w), WorkerState::Finished);
    }
}

#[test]
fn submit_after_shutdown_is_refused_and_changes_nothing() {
    let mut pool = ThreadPool::new(2).expect("a pool");
    assert_eq!(pool.submit(), Ok(0));
    pool.shutdown();
    assert_eq!(pool.submit(), Err(PoolError::PoolShutDown));
    assert_eq!(pool.submit(), Err(PoolError::PoolShutDown));
    assert_eq!(pool.size(), 2);
    assert_eq!(pool.worker_state(0), WorkerState::Idle);
    assert_eq!(pool.worker_state(1), WorkerState::Idle);
    assert_eq!(pool.next_job(0), WorkerStep::Run(0));
    assert_eq!(pool.next_job(1), WorkerStep::Exit);
    assert_eq!(pool.finish_job(0), 0);
    assert_eq!(pool.next_job(0), WorkerStep::Exit);
    assert!(pool.is_joined());
}

#[test]
fn shutdown_of_an_idle_pool_lets_every_worker_leave() {
    let mut pool = ThreadPool::new(4).expect("a pool");
    pool.shutdown();
    for w in 0..4 {
        assert!(!pool.is_joined());
        assert_eq!(pool.next_job(w), WorkerStep::Exit);
        assert_eq!(pool.worker_state(w), WorkerState::Finished);
    }
    assert!(pool.is_joined());
}

#[test]
fn a_failed_job_is_reported_like_any_other() {
    let mut pool = ThreadPool::new(1).expect("a pool");
    assert_eq!(pool.submit(), Ok(0));
    assert_eq!(pool.submit(), Ok(1));
    assert_eq!(pool.next_job(0), WorkerStep::Run(0));
    assert_eq!(pool.finish_job(0), 0);
    assert_eq!(pool.next_job(0), WorkerStep::Run(1));
    assert_eq!(pool.finish_job(0), 1);
    assert_eq!(pool.next_job(0), WorkerStep::Wait);
}
