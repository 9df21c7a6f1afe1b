//! End-to-end scenarios: producers and consumers on the four queue
//! facades, and a worker pool draining its task queue.
use concurrent::order::Pair;
use concurrent::pool::Pool;
use concurrent::pool::Task;
use concurrent::pool::WorkerHost;
use concurrent::pool::worker_loop;
use concurrent::queues::BlockingPriorityQueue;
use concurrent::queues::BoundedQueue;
use concurrent::queues::Queue;
use crossbeam_utils::thread::scope;
use threadpool::ThreadPool;

/// Burn a little time so the other side of a rendezvous gets a chance
/// to run first.
fn busy_delay(rounds: u64) {
    let mut x: u64 = 0;
    let mut i: u64 = 0;
    while i < rounds {
        x = x.wrapping_add(i);
        i += 1;
    }
    std::hint::black_box(x);
}

#[test]
fn s1_fifo_single_producer_single_consumer() {
    let q: Queue<i64> = Queue::new();
    let producer = q.clone();
    scope(|s| {
        s.spawn(move |_| {
            producer.push(1);
            producer.push(2);
            producer.push(3);
        });
        assert_eq!(q.pop().0, 1);
        assert_eq!(q.pop().0, 2);
        assert_eq!(q.pop().0, 3);
    })
    .unwrap();
}

#[test]
fn s2_priority_queue_pops_non_increasing() {
    let q: BlockingPriorityQueue<i64> = BlockingPriorityQueue::new();
    for v in [3, 1, 4, 1, 5, 9, 2, 6] {
        q.push(v);
    }
    let mut out = Vec::new();
    for _ in 0..8 {
        out.push(q.pop().0);
    }
    assert_eq!(out, vec![9, 6, 5, 4, 3, 2, 1, 1]);
}

#[test]
fn s3_bounded_queue_delivers_in_order_under_backpressure() {
    let q: BoundedQueue<i64> = BoundedQueue::new(2);
    let done: Queue<i64> = Queue::new();
    let producer = q.clone();
    let producer_done = done.clone();
    scope(|s| {
        s.spawn(move |_| {
            for v in [10, 20, 30, 40] {
                producer.push(v);
            }
            producer_done.push(1);
        });
        // While the consumer dawdles, the producer can complete at most
        // the first two pushes; the rest must wait for pops.
        busy_delay(5_000_000);
        assert_eq!(q.pop().0, 10);
        busy_delay(1_000_000);
        assert_eq!(q.pop().0, 20);
        assert_eq!(q.pop().0, 30);
        assert_eq!(q.pop().0, 40);
        assert_eq!(done.pop().0, 1);
    })
    .unwrap();
}

/// A task that bumps a shared counter held as the sole element of an
/// unbounded queue: popping takes the cell, pushing puts it back.
struct IncTask {
    counter: Queue<u64>,
}

impl Task for IncTask {
    fn run(self) {
        let v = self.counter.pop().0;
        self.counter.push(v + 1);
    }
}

/// Hosts pool workers on an operating-system thread pool.
struct OsHost {
    pool: ThreadPool,
}

impl<T: Task + 'static> WorkerHost<T> for OsHost {
    fn start(&mut self, queue: Queue<Option<T>>) {
        self.pool.execute(move || {
            worker_loop(queue);
        });
    }

    fn wait(self) {
        self.pool.join();
    }
}

#[test]
fn s4_pool_runs_every_task_before_shutdown() {
    let counter: Queue<u64> = Queue::new();
    counter.push(0);
    let host = OsHost { pool: ThreadPool::new(4) };
    let pool: Pool<IncTask, OsHost> = Pool::new(4, host);
    for _ in 0..1000 {
        pool.submit(IncTask { counter: counter.clone() });
    }
    pool.shutdown();
    assert_eq!(counter.pop().0, 1000);
}

#[test]
fn s5_two_threads_each_set_a_flag() {
    let flag_a: Queue<bool> = Queue::new();
    let flag_b: Queue<bool> = Queue::new();
    let in_a = flag_a.clone();
    let in_b = flag_b.clone();
    scope(|s| {
        s.spawn(move |_| in_a.push(true));
        s.spawn(move |_| in_b.push(true));
    })
    .unwrap();
    assert!(flag_a.pop().0);
    assert!(flag_b.pop().0);
}

#[test]
fn s6_lexicographic_priority_with_two_producers() {
    let q: BlockingPriorityQueue<Pair> = BlockingPriorityQueue::new();
    let first = q.clone();
    let second = q.clone();
    scope(|s| {
        s.spawn(move |_| {
            for i in 0..5000i64 {
                first.push(Pair { fst: i % 97, snd: i });
            }
        });
        s.spawn(move |_| {
            for i in 0..5000i64 {
                second.push(Pair { fst: i % 89, snd: -i });
            }
        });
    })
    .unwrap();
    let mut prev: Option<Pair> = None;
    for _ in 0..10000 {
        let p = q.pop().0;
        if let Some(q0) = prev {
            let le = p.fst < q0.fst || (p.fst == q0.fst && p.snd <= q0.snd);
            assert!(le, "pops must be non-increasing lexicographically");
        }
        prev = Some(p);
    }
}
