//! A small toolkit for multi-threaded work distribution: four blocking
//! concurrent queues (unbounded and bounded, FIFO and priority ordered)
//! and a fixed-size worker pool that drains a shared FIFO of optional
//! tasks, with `None` as the shutdown sentinel.
//!
//! Every facade is a thin handle on a shared monitor cell: a sequential
//! container guarded by a lock whose invariant pins down what any thread
//! may observe inside the critical section. Creating and joining the
//! operating-system threads that drive the pool is left to the caller,
//! through the pool's [`pool::WorkerHost`] capability.

mod sys;

pub mod order;
pub mod prio;
pub mod queues;
pub mod pool;
