//! A fixed-size pool of workers that consume optional tasks from one
//! shared unbounded FIFO queue. A `Some` carries a task; a `None` is
//! the in-band shutdown sentinel, so a graceful shutdown runs every
//! previously submitted task before any worker exits.
//!
//! Creating the operating-system threads themselves is the platform's
//! business, not this library's: the pool drives a [`WorkerHost`]
//! supplied by its caller, and every decision a worker takes stands
//! here, in [`worker_loop`].
use vstd::prelude::*;

verus! {

use std::collections::VecDeque;

use crate::queues::Queue;
use crate::queues::nth_popped;
use crate::queues::lemma_fifo_order;
use crate::sys::block_forever;

/// A unit of work for the pool. The pool's users bring the type that
/// carries a task and say how it runs.
pub trait Task: Sized + Send + Sync {
    /// Run the task to completion, consuming it.
    fn run(self);
}

/// The platform capability the pool consumes: starting a worker thread
/// and waiting for all started workers to finish. Implementors start,
/// for each `start` call, one thread that runs [`worker_loop`] on the
/// queue handed over, and return from `wait` only once every such
/// thread has terminated.
pub trait WorkerHost<T: Task>: Sized {
    /// The queues the host has started workers on, one entry per
    /// `start` call, in call order: the host's ghost start log. A
    /// verified implementation must override this with its own log —
    /// the default, a fixed abstract sequence, cannot satisfy the
    /// clause on `start` and exists only so that implementations
    /// outside the verifier need not name the ghost member. Verified
    /// callers rely solely on the relation `start` states below.
    open spec fn starts(self) -> Seq<Queue<Option<T>>> {
        arbitrary()
    }

    /// Start one worker thread over a clone of the pool's queue,
    /// recording the queue in the start log. An implementation that
    /// lives outside the verifier is held to this clause, as to any
    /// contract at that boundary, only by its own discipline.
    fn start(&mut self, queue: Queue<Option<T>>)
        ensures
            final(self).starts() == old(self).starts().push(queue),
    ;

    /// Block until every started worker has terminated.
    fn wait(self);
}

/// What each worker runs: pop from the shared queue, run every task
/// received, and terminate upon the `None` sentinel. The result is the
/// ghost log of the messages the worker popped: every message before
/// the last carried a task the worker ran, and the last — the only one
/// that ends the loop — is the sentinel. A worker drains; it does not
/// quit early.
pub fn worker_loop<T: Task>(queue: Queue<Option<T>>) -> (log: Ghost<Seq<Option<T>>>)
    ensures
        log@.len() > 0,
        log@.last() == None::<T>,
        forall|j: int| 0 <= j < log@.len() - 1 ==> #[trigger] log@[j] is Some,
{
    let ghost mut popped: Seq<Option<T>> = Seq::empty();
    let mut rounds: u64 = 0;
    while rounds < u64::MAX
        invariant
            forall|j: int| 0 <= j < popped.len() ==> #[trigger] popped[j] is Some,
        decreases u64::MAX - rounds,
    {
        let r = queue.pop();
        let msg = r.0;
        proof {
            popped = popped.push(msg);
        }
        match msg {
            Some(task) => task.run(),
            None => {
                return Ghost(popped);
            },
        }
        rounds = rounds + 1;
    }
    // Unreachable in practice: the call never returns; the ghost push
    // below only closes this branch for the verifier.
    let _stall: u8 = block_forever();
    Ghost(popped.push(None::<T>))
}

/// A pool of worker threads over tasks of type `T`, hosted by `H`.
#[verifier::reject_recursive_types(T)]
pub struct Pool<T: Task, H: WorkerHost<T>> {
    queue: Queue<Option<T>>,
    host: H,
    n_threads: usize,
}

impl<T: Task, H: WorkerHost<T>> Pool<T, H> {
    /// The number of worker threads the pool was created with.
    pub closed spec fn worker_count(self) -> nat {
        self.n_threads as nat
    }

    /// The shared queue the pool's workers consume from.
    pub closed spec fn task_queue(self) -> Queue<Option<T>> {
        self.queue
    }

    /// The start log of the pool's host.
    pub closed spec fn host_starts(self) -> Seq<Queue<Option<T>>> {
        self.host.starts()
    }

    /// Create a thread pool with `n_threads` threads: exactly
    /// `n_threads` workers are started on the host, every one on the
    /// pool's own shared task queue.
    pub fn new(n_threads: usize, host: H) -> (p: Pool<T, H>)
        ensures
            p.worker_count() == n_threads,
            p.host_starts() == host.starts() + Seq::new(
                n_threads as nat,
                |j: int| p.task_queue(),
            ),
    {
        let queue = Queue::<Option<T>>::new();
        let ghost starts0 = host.starts();
        let mut host = host;
        let mut i: usize = 0;
        while i < n_threads
            invariant
                i <= n_threads,
                host.starts() =~= starts0 + Seq::new(i as nat, |j: int| queue),
            decreases n_threads - i,
        {
            let send_queue = queue.clone();
            host.start(send_queue);
            i = i + 1;
            proof {
                assert(host.starts() =~= starts0 + Seq::new(i as nat, |j: int| queue));
            }
        }
        proof {
            assert(starts0 + Seq::new(n_threads as nat, |j: int| queue) =~= host.starts());
        }
        Pool { queue, host, n_threads }
    }

    /// Submit a task to the thread pool: `Some(task)` is appended at
    /// the tail of the pool's shared queue, so tasks are delivered to
    /// the workers in FIFO order. The result carries ghost witnesses of
    /// the container read under the lock and of the one written back.
    pub fn submit(&self, task: T) -> (w: (
        Ghost<VecDeque<Option<T>>>,
        Ghost<VecDeque<Option<T>>>,
    ))
        ensures
            self.task_queue().admits(w.0@),
            w.1@@ == w.0@@.push(Some(task)),
            self.task_queue().admits(w.1@),
    {
        self.queue.push(Some(task))
    }

    /// Shut the pool down gracefully: enqueue one `None` sentinel per
    /// worker — behind every task already submitted, since the queue
    /// is FIFO — then wait for every worker. Each worker keeps
    /// draining tasks and terminates when a sentinel reaches it, so
    /// every submitted task runs to completion before `shutdown`
    /// returns. The result is the ghost log of the sentinel pushes:
    /// one per worker, each appending `None` at the tail of a
    /// container the pool's queue admitted.
    pub fn shutdown(self) -> (sent: Ghost<
        Seq<(VecDeque<Option<T>>, VecDeque<Option<T>>)>,
    >)
        ensures
            sent@.len() == self.worker_count(),
            forall|j: int|
                0 <= j < sent@.len() ==> {
                    &&& self.task_queue().admits((#[trigger] sent@[j]).0)
                    &&& sent@[j].1@ == sent@[j].0@.push(None::<T>)
                    &&& self.task_queue().admits(sent@[j].1)
                },
    {
        let Pool { queue, host, n_threads } = self;
        let ghost mut log: Seq<(VecDeque<Option<T>>, VecDeque<Option<T>>)> = Seq::empty();
        let mut i: usize = 0;
        while i < n_threads
            invariant
                i <= n_threads,
                log.len() == i,
                forall|j: int|
                    0 <= j < log.len() ==> {
                        &&& queue.admits((#[trigger] log[j]).0)
                        &&& log[j].1@ == log[j].0@.push(None::<T>)
                        &&& queue.admits(log[j].1)
                    },
            decreases n_threads - i,
        {
            let w = queue.push(None);
            proof {
                log = log.push((w.0@, w.1@));
            }
            i = i + 1;
        }
        host.wait();
        Ghost(log)
    }
}

/// Graceful drain, at the queue's level: once `k` tasks stand submitted
/// and shutdown has enqueued its sentinels behind them, the FIFO line
/// is the tasks in submission order followed by the sentinels. So the
/// first `k` values the workers collectively pop are exactly the `k`
/// submitted tasks, and only after all of them come the sentinels that
/// let workers exit: shutdown drains, it does not cancel.
pub proof fn lemma_pool_drain<T>(tasks: Seq<T>, n_threads: nat)
    ensures
        ({
            let line = tasks.map_values(|t: T| Some(t)) + Seq::new(n_threads, |i: int| None::<T>);
            &&& line.len() == tasks.len() + n_threads
            &&& forall|k: int| 0 <= k < tasks.len() ==> nth_popped(line, k) == Some(tasks[k])
            &&& forall|k: int|
                tasks.len() <= k < line.len() ==> nth_popped(line, k) == None::<T>
        }),
{
    let line = tasks.map_values(|t: T| Some(t)) + Seq::new(n_threads, |i: int| None::<T>);
    assert forall|k: int| 0 <= k < tasks.len() implies nth_popped(line, k) == Some(
        tasks[k],
    ) by {
        lemma_fifo_order(line, k);
        assert(line[k] == Some(tasks[k]));
    }
    assert forall|k: int| tasks.len() <= k < line.len() implies nth_popped(line, k)
        == None::<T> by {
        lemma_fifo_order(line, k);
        assert(line[k] == None::<T>);
    }
}

} // verus!
