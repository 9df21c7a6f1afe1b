//! Property-level tests: mutual exclusion, FIFO and priority order,
//! bounded behaviour, clone sharing, and the pool's round trip.
use concurrent::order::Cmp;
use concurrent::order::Pair;
use concurrent::order::TotalOrder;
use concurrent::pool::Pool;
use concurrent::pool::Task;
use concurrent::pool::WorkerHost;
use concurrent::pool::worker_loop;
use concurrent::prio::PriorityQueue;
use concurrent::queues::BoundedPriorityQueue;
use concurrent::queues::BoundedQueue;
use concurrent::queues::Queue;
use crossbeam_utils::thread::scope;
use threadpool::ThreadPool;

#[test]
fn p1_protected_counter_loses_no_update() {
    // The counter lives as the single element of a queue: each
    // increment pops the cell (everyone else then blocks) and pushes
    // the bumped value back, so lost updates would show up missing.
    let counter: Queue<u64> = Queue::new();
    counter.push(0);
    scope(|s| {
        for _ in 0..4 {
            let cell = counter.clone();
            s.spawn(move |_| {
                for _ in 0..250 {
                    let v = cell.pop().0;
                    cell.push(v + 1);
                }
            });
        }
    })
    .unwrap();
    assert_eq!(counter.pop().0, 1000);
}

#[test]
fn p2_bounded_queue_keeps_submission_order() {
    let q: BoundedQueue<i64> = BoundedQueue::new(3);
    let producer = q.clone();
    scope(|s| {
        s.spawn(move |_| {
            for v in 0..50 {
                producer.push(v);
            }
        });
        for v in 0..50 {
            assert_eq!(q.pop().0, v);
        }
    })
    .unwrap();
}

#[test]
fn p3_priority_container_drains_non_increasing() {
    let mut q: PriorityQueue<i64> = PriorityQueue::new();
    for v in [2, 7, 1, 8, 2, 8, 1, 8, 2, 8] {
        q.push(v);
    }
    assert_eq!(q.len(), 10);
    let mut prev = i64::MAX;
    for _ in 0..10 {
        let v = q.pop();
        assert!(v <= prev);
        prev = v;
    }
    assert_eq!(q.len(), 0);
}

#[test]
fn p4_bounded_capacity_one_alternates() {
    let q: BoundedQueue<i64> = BoundedQueue::new(1);
    let producer = q.clone();
    scope(|s| {
        s.spawn(move |_| {
            for v in 0..20 {
                producer.push(v);
            }
        });
        for v in 0..20 {
            assert_eq!(q.pop().0, v);
        }
    })
    .unwrap();
}

#[test]
fn p4_bounded_priority_respects_capacity_and_order() {
    let q: BoundedPriorityQueue<i64> = BoundedPriorityQueue::new(3);
    q.push(5);
    q.push(1);
    q.push(9);
    assert_eq!(q.pop().0, 9);
    assert_eq!(q.pop().0, 5);
    assert_eq!(q.pop().0, 1);
}

#[test]
fn p8_clones_share_one_cell() {
    let q: Queue<i64> = Queue::new();
    let other = q.clone();
    q.push(41);
    assert_eq!(other.pop().0, 41);
    other.push(42);
    assert_eq!(q.pop().0, 42);
}

/// A task that reports its id onto a shared log queue.
struct LogTask {
    id: u64,
    log: Queue<u64>,
}

impl Task for LogTask {
    fn run(self) {
        self.log.push(self.id);
    }
}

/// Hosts pool workers on an operating-system thread pool.
struct OsHost {
    pool: ThreadPool,
}

impl<T: Task + 'static> WorkerHost<T> for OsHost {
    fn start(&mut self, queue: Queue<Option<T>>) {
        self.pool.execute(move || {
            worker_loop(queue);
        });
    }

    fn wait(self) {
        self.pool.join();
    }
}

#[test]
fn p6_pool_log_is_a_permutation_of_task_ids() {
    let log: Queue<u64> = Queue::new();
    let host = OsHost { pool: ThreadPool::new(3) };
    let pool: Pool<LogTask, OsHost> = Pool::new(3, host);
    for id in 0..40 {
        pool.submit(LogTask { id, log: log.clone() });
    }
    pool.shutdown();
    let mut seen = Vec::new();
    for _ in 0..40 {
        seen.push(log.pop().0);
    }
    seen.sort();
    let expected: Vec<u64> = (0..40).collect();
    assert_eq!(seen, expected);
}

#[test]
fn p5_bounded_priority_push_unblocks_on_pop() {
    // Capacity two, five values: the producer's later pushes can only
    // complete as the consumer makes room, yet every value arrives.
    let q: BoundedPriorityQueue<i64> = BoundedPriorityQueue::new(2);
    let producer = q.clone();
    scope(|s| {
        s.spawn(move |_| {
            for v in [7, 3, 9, 1, 5] {
                producer.push(v);
            }
        });
        let mut seen = Vec::new();
        for _ in 0..5 {
            seen.push(q.pop().0);
        }
        seen.sort();
        assert_eq!(seen, vec![1, 3, 5, 7, 9]);
    })
    .unwrap();
}

#[test]
fn p8_bounded_clones_share_one_cell() {
    let q: BoundedQueue<i64> = BoundedQueue::new(4);
    let other = q.clone();
    q.push(7);
    assert_eq!(other.pop().0, 7);
}

#[test]
fn pair_comparison_is_lexicographic() {
    let a = Pair { fst: 1, snd: 5 };
    let b = Pair { fst: 2, snd: 0 };
    let c = Pair { fst: 1, snd: 7 };
    assert!(matches!(a.compare(&b), Cmp::Less));
    assert!(matches!(b.compare(&a), Cmp::Greater));
    assert!(matches!(a.compare(&c), Cmp::Less));
    assert!(matches!(c.compare(&a), Cmp::Greater));
    assert!(matches!(a.compare(&a), Cmp::Equal));
}

#[test]
fn priority_container_handles_duplicates() {
    let mut q: PriorityQueue<i64> = PriorityQueue::new();
    q.push(4);
    q.push(4);
    q.push(4);
    assert_eq!(q.pop(), 4);
    assert_eq!(q.pop(), 4);
    assert_eq!(q.pop(), 4);
}

#[test]
fn priority_pairs_order_by_second_on_ties() {
    let mut q: PriorityQueue<Pair> = PriorityQueue::new();
    q.push(Pair { fst: 3, snd: 1 });
    q.push(Pair { fst: 3, snd: 9 });
    q.push(Pair { fst: 3, snd: 4 });
    let first = q.pop();
    assert_eq!((first.fst, first.snd), (3, 9));
    let second = q.pop();
    assert_eq!((second.fst, second.snd), (3, 4));
    let third = q.pop();
    assert_eq!((third.fst, third.snd), (3, 1));
}
