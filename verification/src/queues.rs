//! The four public queue facades. Each one owns a share of a monitor
//! cell: a sequential container behind a lock whose invariant every
//! release must re-establish, so it holds at every observation point.
//! An operation that finds the cell empty (or, for the bounded
//! facades, full) blocks by releasing the lock and retrying the
//! acquisition, round after round; after an entire `u64` of failed
//! rounds — centuries of spinning, unreachable in practice — it parks
//! forever, the indefinite block its description allows.
use vstd::prelude::*;

verus! {

use std::collections::VecDeque;
use std::sync::Arc;
use vstd::rwlock::RwLock;
use vstd::rwlock::RwLockPredicate;

use crate::order::TotalOrder;
use crate::prio::PriorityQueue;
use crate::sys::arc_clone;
use crate::sys::block_forever;

/// An unbounded, blocking concurrent FIFO queue. Clones share one cell.
#[verifier::reject_recursive_types(T)]
pub struct Queue<T> {
    cell: Arc<RwLock<VecDeque<T>, spec_fn(VecDeque<T>) -> bool>>,
}

impl<T> Queue<T> {
    /// Whether a container value may sit in this queue's cell.
    pub closed spec fn admits(self, v: VecDeque<T>) -> bool {
        self.cell.pred().inv(v)
    }

    /// The cell of an unbounded FIFO queue admits every container value.
    #[verifier::type_invariant]
    spec fn wf(self) -> bool {
        forall|v: VecDeque<T>| #[trigger] self.cell.pred().inv(v)
    }

    /// Return a new `Queue` instance: an unbounded cell, admitting
    /// every container value.
    pub fn new() -> (q: Queue<T>)
        ensures
            forall|v: VecDeque<T>| #[trigger] q.admits(v),
    {
        let cell = RwLock::new(VecDeque::new(), Ghost(|v: VecDeque<T>| true));
        Queue { cell: Arc::new(cell) }
    }

    /// Push a value to the back of the queue. The result carries ghost
    /// witnesses of the container read under the lock and of the one
    /// written back: the second is the first with the value appended.
    pub fn push(&self, item: T) -> (w: (Ghost<VecDeque<T>>, Ghost<VecDeque<T>>))
        ensures
            self.admits(w.0@),
            w.1@@ == w.0@@.push(item),
            self.admits(w.1@),
    {
        proof {
            use_type_invariant(self);
        }
        let (mut q, handle) = self.cell.acquire_write();
        let ghost pre = q;
        q.push_back(item);
        let ghost post = q;
        handle.release_write(q);
        (Ghost(pre), Ghost(post))
    }

    /// Pop a value from the front of the queue, blocking until the
    /// queue is not empty. Besides the value, the result carries ghost
    /// witnesses of the container read under the lock and of the one
    /// written back: the value is the front of the first, the second is
    /// its remainder, and both are admitted by the cell.
    pub fn pop(&self) -> (r: (T, Ghost<VecDeque<T>>, Ghost<VecDeque<T>>))
        ensures
            self.admits(r.1@),
            r.1@@.len() > 0,
            r.0 == r.1@@[0],
            r.2@@ == r.1@@.drop_first(),
            self.admits(r.2@),
    {
        proof {
            use_type_invariant(self);
        }
        let mut rounds: u64 = 0;
        while rounds < u64::MAX
            invariant
                self.wf(),
            decreases u64::MAX - rounds,
        {
            let (mut q, handle) = self.cell.acquire_write();
            if q.len() > 0 {
                let ghost pre = q;
                let head = q.pop_front();
                let ghost post = q;
                handle.release_write(q);
                // The deque was nonempty, so `head` is always `Some`;
                // falling through would merely retry.
                if let Some(item) = head {
                    return (item, Ghost(pre), Ghost(post));
                }
            } else {
                handle.release_write(q);
            }
            rounds = rounds + 1;
        }
        stalled_fifo_pop()
    }
}

impl<T> Clone for Queue<T> {
    /// Return a shallow copy of the queue: a handle to the same cell.
    fn clone(&self) -> (r: Queue<T>)
        ensures
            r == *self,
    {
        proof {
            use_type_invariant(self);
        }
        Queue { cell: arc_clone(&self.cell) }
    }
}

/// A bounded, blocking concurrent FIFO queue. Clones share one cell,
/// and no observation under the lock ever finds more than `capacity`
/// elements in it.
#[verifier::reject_recursive_types(T)]
pub struct BoundedQueue<T> {
    cell: Arc<RwLock<VecDeque<T>, spec_fn(VecDeque<T>) -> bool>>,
    maximum: usize,
}

impl<T> BoundedQueue<T> {
    /// The greatest number of elements the cell may ever hold.
    pub closed spec fn capacity(self) -> nat {
        self.maximum as nat
    }

    /// Whether a container value may sit in this queue's cell. Every
    /// value put into the cell must satisfy it, so every value taken
    /// out of the cell does.
    pub closed spec fn admits(self, v: VecDeque<T>) -> bool {
        self.cell.pred().inv(v)
    }

    /// The cell admits exactly the containers within capacity. Holds
    /// of every queue value that can be constructed.
    #[verifier::type_invariant]
    pub closed spec fn wf(self) -> bool {
        &&& forall|v: VecDeque<T>|
            #[trigger] self.cell.pred().inv(v) <==> v@.len() <= self.maximum
        &&& self.maximum >= 1
    }

    /// Return a new `BoundedQueue` instance, holding at most `maximum`
    /// elements: its cell admits exactly the container values within
    /// that capacity.
    pub fn new(maximum: usize) -> (q: BoundedQueue<T>)
        requires
            maximum >= 1,
        ensures
            q.capacity() == maximum,
            forall|v: VecDeque<T>| #[trigger] q.admits(v) <==> v@.len() <= maximum,
    {
        let cell = RwLock::new(
            VecDeque::new(),
            Ghost(|v: VecDeque<T>| v@.len() <= maximum),
        );
        BoundedQueue { cell: Arc::new(cell), maximum }
    }

    /// Push a value to the back of the queue, blocking until the queue
    /// is not full. The result carries ghost witnesses of the container
    /// read under the lock — strictly below capacity — and of the one
    /// written back, the first with the value appended.
    pub fn push(&self, item: T) -> (w: (Ghost<VecDeque<T>>, Ghost<VecDeque<T>>))
        ensures
            self.admits(w.0@),
            w.0@@.len() < self.capacity(),
            w.1@@ == w.0@@.push(item),
            self.admits(w.1@),
    {
        proof {
            use_type_invariant(self);
        }
        let mut rounds: u64 = 0;
        while rounds < u64::MAX
            invariant
                self.wf(),
            decreases u64::MAX - rounds,
        {
            let (mut q, handle) = self.cell.acquire_write();
            if q.len() < self.maximum {
                let ghost pre = q;
                q.push_back(item);
                let ghost post = q;
                handle.release_write(q);
                return (Ghost(pre), Ghost(post));
            }
            handle.release_write(q);
            rounds = rounds + 1;
        }
        stalled_fifo_push(item)
    }

    /// Pop a value from the front of the queue, blocking until the
    /// queue is not empty. Besides the value, the result carries ghost
    /// witnesses of the container read under the lock and of the one
    /// written back: the value is the front of the first, the second is
    /// its remainder, and both are admitted by the cell.
    pub fn pop(&self) -> (r: (T, Ghost<VecDeque<T>>, Ghost<VecDeque<T>>))
        ensures
            self.admits(r.1@),
            r.1@@.len() > 0,
            r.0 == r.1@@[0],
            r.2@@ == r.1@@.drop_first(),
            self.admits(r.2@),
    {
        proof {
            use_type_invariant(self);
        }
        let mut rounds: u64 = 0;
        while rounds < u64::MAX
            invariant
                self.wf(),
            decreases u64::MAX - rounds,
        {
            let (mut q, handle) = self.cell.acquire_write();
            if q.len() > 0 {
                let ghost pre = q;
                let head = q.pop_front();
                let ghost post = q;
                handle.release_write(q);
                // The deque was nonempty, so `head` is always `Some`;
                // falling through would merely retry.
                if let Some(item) = head {
                    return (item, Ghost(pre), Ghost(post));
                }
            } else {
                handle.release_write(q);
            }
            rounds = rounds + 1;
        }
        stalled_fifo_pop()
    }
}

impl<T> Clone for BoundedQueue<T> {
    /// Return a shallow copy of the queue: a handle to the same cell.
    fn clone(&self) -> (r: BoundedQueue<T>)
        ensures
            r == *self,
    {
        proof {
            use_type_invariant(self);
        }
        BoundedQueue { cell: arc_clone(&self.cell), maximum: self.maximum }
    }
}

/// The bounded invariant, as any observer sees it: a container value
/// that a bounded queue's cell admits never holds more than `capacity`
/// elements. Since every release of the lock must leave an admitted
/// value behind, no thread ever observes the cell over capacity.
pub proof fn lemma_bounded_observation<T>(q: BoundedQueue<T>, v: VecDeque<T>)
    requires
        q.wf(),
        q.admits(v),
    ensures
        v@.len() <= q.capacity(),
{
}

/// An unbounded, blocking concurrent priority queue. Clones share one
/// cell, and the cell only ever holds a well-formed container, so a
/// greatest element is delivered first.
#[verifier::reject_recursive_types(T)]
pub struct BlockingPriorityQueue<T: TotalOrder> {
    cell: Arc<RwLock<PriorityQueue<T>, spec_fn(PriorityQueue<T>) -> bool>>,
}

impl<T: TotalOrder> BlockingPriorityQueue<T> {
    /// Whether a container value may sit in this queue's cell.
    pub closed spec fn admits(self, v: PriorityQueue<T>) -> bool {
        self.cell.pred().inv(v)
    }

    /// The cell admits exactly the well-formed containers. Holds of
    /// every queue value that can be constructed.
    #[verifier::type_invariant]
    pub closed spec fn wf(self) -> bool {
        forall|v: PriorityQueue<T>| #[trigger] self.cell.pred().inv(v) <==> v.wf()
    }

    /// Return a new `BlockingPriorityQueue` instance: its cell admits
    /// exactly the well-formed containers.
    pub fn new() -> (q: BlockingPriorityQueue<T>)
        ensures
            forall|v: PriorityQueue<T>| #[trigger] q.admits(v) <==> v.wf(),
    {
        let cell = RwLock::new(
            PriorityQueue::new(),
            Ghost(|v: PriorityQueue<T>| v.wf()),
        );
        BlockingPriorityQueue { cell: Arc::new(cell) }
    }

    /// Push a value into the queue. The result carries ghost witnesses
    /// of the container read under the lock and of the one written
    /// back, the first with the value inserted into its sorted place.
    pub fn push(&self, item: T) -> (w: (Ghost<PriorityQueue<T>>, Ghost<PriorityQueue<T>>))
        ensures
            self.admits(w.0@),
            w.1@@ == crate::prio::sorted_insert(w.0@@, item),
            w.1@@.to_multiset() == w.0@@.to_multiset().insert(item),
            self.admits(w.1@),
    {
        proof {
            use_type_invariant(self);
        }
        let (mut q, handle) = self.cell.acquire_write();
        let ghost pre = q;
        q.push(item);
        let ghost post = q;
        handle.release_write(q);
        (Ghost(pre), Ghost(post))
    }

    /// Pop the largest value from the queue, blocking until the queue
    /// is not empty. Besides the value, the result carries ghost
    /// witnesses of the container read under the lock and of the one
    /// written back: the value is a greatest element of the first — no
    /// element of the remainder exceeds it — and the second is that
    /// remainder.
    pub fn pop(&self) -> (r: (T, Ghost<PriorityQueue<T>>, Ghost<PriorityQueue<T>>))
        ensures
            self.admits(r.1@),
            r.1@@.len() > 0,
            r.0 == r.1@@.last(),
            r.2@@ == r.1@@.drop_last(),
            forall|j: int| 0 <= j < r.2@@.len() ==> #[trigger] r.2@@[j].le(r.0),
            r.1@@.to_multiset() == r.2@@.to_multiset().insert(r.0),
            self.admits(r.2@),
    {
        proof {
            use_type_invariant(self);
        }
        let mut rounds: u64 = 0;
        while rounds < u64::MAX
            invariant
                self.wf(),
            decreases u64::MAX - rounds,
        {
            let (mut q, handle) = self.cell.acquire_write();
            if q.len() > 0 {
                let ghost pre = q;
                let item = q.pop();
                let ghost post = q;
                handle.release_write(q);
                return (item, Ghost(pre), Ghost(post));
            }
            handle.release_write(q);
            rounds = rounds + 1;
        }
        stalled_priority_pop()
    }
}

impl<T: TotalOrder> Clone for BlockingPriorityQueue<T> {
    /// Return a shallow copy of the queue: a handle to the same cell.
    fn clone(&self) -> (r: BlockingPriorityQueue<T>)
        ensures
            r == *self,
    {
        proof {
            use_type_invariant(self);
        }
        BlockingPriorityQueue { cell: arc_clone(&self.cell) }
    }
}

/// The priority monitor's invariant, as any observer sees it: a
/// container value that the cell admits is always well-formed, so every
/// critical section starts from a container whose back is a greatest
/// element.
pub proof fn lemma_priority_observation<T: TotalOrder>(
    q: BlockingPriorityQueue<T>,
    v: PriorityQueue<T>,
)
    requires
        q.wf(),
        q.admits(v),
    ensures
        v.wf(),
{
}

/// A bounded, blocking concurrent priority queue. Clones share one
/// cell; the cell only ever holds a well-formed container of at most
/// `capacity` elements.
#[verifier::reject_recursive_types(T)]
pub struct BoundedPriorityQueue<T: TotalOrder> {
    cell: Arc<RwLock<PriorityQueue<T>, spec_fn(PriorityQueue<T>) -> bool>>,
    maximum: usize,
}

impl<T: TotalOrder> BoundedPriorityQueue<T> {
    /// The greatest number of elements the cell may ever hold.
    pub closed spec fn capacity(self) -> nat {
        self.maximum as nat
    }

    /// Whether a container value may sit in this queue's cell.
    pub closed spec fn admits(self, v: PriorityQueue<T>) -> bool {
        self.cell.pred().inv(v)
    }

    /// The cell admits exactly the well-formed containers within
    /// capacity. Holds of every queue value that can be constructed.
    #[verifier::type_invariant]
    pub closed spec fn wf(self) -> bool {
        &&& forall|v: PriorityQueue<T>|
            #[trigger] self.cell.pred().inv(v) <==> (v.wf() && v@.len() <= self.maximum)
        &&& self.maximum >= 1
    }

    /// Return a new `BoundedPriorityQueue` instance, holding at most
    /// `maximum` elements: its cell admits exactly the well-formed
    /// containers within that capacity.
    pub fn new(maximum: usize) -> (q: BoundedPriorityQueue<T>)
        requires
            maximum >= 1,
        ensures
            q.capacity() == maximum,
            forall|v: PriorityQueue<T>|
                #[trigger] q.admits(v) <==> (v.wf() && v@.len() <= maximum),
    {
        let cell = RwLock::new(
            PriorityQueue::new(),
            Ghost(|v: PriorityQueue<T>| v.wf() && v@.len() <= maximum),
        );
        BoundedPriorityQueue { cell: Arc::new(cell), maximum }
    }

    /// Push a value into the queue, blocking until the queue is not
    /// full. The result carries ghost witnesses of the container read
    /// under the lock — strictly below capacity — and of the one
    /// written back, the first with the value inserted into its sorted
    /// place.
    pub fn push(&self, item: T) -> (w: (Ghost<PriorityQueue<T>>, Ghost<PriorityQueue<T>>))
        ensures
            self.admits(w.0@),
            w.0@@.len() < self.capacity(),
            w.1@@ == crate::prio::sorted_insert(w.0@@, item),
            w.1@@.to_multiset() == w.0@@.to_multiset().insert(item),
            self.admits(w.1@),
    {
        proof {
            use_type_invariant(self);
        }
        let mut rounds: u64 = 0;
        while rounds < u64::MAX
            invariant
                self.wf(),
            decreases u64::MAX - rounds,
        {
            let (mut q, handle) = self.cell.acquire_write();
            if q.len() < self.maximum {
                let ghost pre = q;
                q.push(item);
                let ghost post = q;
                handle.release_write(q);
                return (Ghost(pre), Ghost(post));
            }
            handle.release_write(q);
            rounds = rounds + 1;
        }
        stalled_priority_push(item)
    }

    /// Pop the largest value from the queue, blocking until the queue
    /// is not empty. Besides the value, the result carries ghost
    /// witnesses of the container read under the lock and of the one
    /// written back: the value is a greatest element of the first — no
    /// element of the remainder exceeds it — and the second is that
    /// remainder.
    pub fn pop(&self) -> (r: (T, Ghost<PriorityQueue<T>>, Ghost<PriorityQueue<T>>))
        ensures
            self.admits(r.1@),
            r.1@@.len() > 0,
            r.0 == r.1@@.last(),
            r.2@@ == r.1@@.drop_last(),
            forall|j: int| 0 <= j < r.2@@.len() ==> #[trigger] r.2@@[j].le(r.0),
            r.1@@.to_multiset() == r.2@@.to_multiset().insert(r.0),
            self.admits(r.2@),
    {
        proof {
            use_type_invariant(self);
        }
        let mut rounds: u64 = 0;
        while rounds < u64::MAX
            invariant
                self.wf(),
            decreases u64::MAX - rounds,
        {
            let (mut q, handle) = self.cell.acquire_write();
            if q.len() > 0 {
                let ghost pre = q;
                let item = q.pop();
                let ghost post = q;
                handle.release_write(q);
                return (item, Ghost(pre), Ghost(post));
            }
            handle.release_write(q);
            rounds = rounds + 1;
        }
        stalled_priority_pop()
    }
}

impl<T: TotalOrder> Clone for BoundedPriorityQueue<T> {
    /// Return a shallow copy of the queue: a handle to the same cell.
    fn clone(&self) -> (r: BoundedPriorityQueue<T>)
        ensures
            r == *self,
    {
        proof {
            use_type_invariant(self);
        }
        BoundedPriorityQueue { cell: arc_clone(&self.cell), maximum: self.maximum }
    }
}

/// The bounded priority monitor's invariant, as any observer sees it:
/// a container value that the cell admits is well-formed and never over
/// capacity.
pub proof fn lemma_bounded_priority_observation<T: TotalOrder>(
    q: BoundedPriorityQueue<T>,
    v: PriorityQueue<T>,
)
    requires
        q.wf(),
        q.admits(v),
    ensures
        v.wf(),
        v@.len() <= q.capacity(),
{
}

/// Closes the retry-exhaustion branch of a FIFO pop. At run time the
/// first call below never returns; the rest only hands the verifier a
/// witness pair that meets the caller's contract.
fn stalled_fifo_pop<T>() -> (r: (T, Ghost<VecDeque<T>>, Ghost<VecDeque<T>>))
    ensures
        r.1@@.len() == 1,
        r.0 == r.1@@[0],
        r.2@@ == r.1@@.drop_first(),
        r.2@@.len() == 0,
{
    let item: T = block_forever();
    let mut f: VecDeque<T> = VecDeque::new();
    f.push_back(item);
    let ghost pre = f;
    let it = f.pop_front().unwrap();
    let ghost post = f;
    proof {
        assert(pre@.drop_first() =~= post@);
    }
    (it, Ghost(pre), Ghost(post))
}

/// Closes the retry-exhaustion branch of a bounded FIFO push, as
/// [`stalled_fifo_pop`] does for pops.
fn stalled_fifo_push<T>(item: T) -> (w: (Ghost<VecDeque<T>>, Ghost<VecDeque<T>>))
    ensures
        w.0@@.len() == 0,
        w.1@@ == w.0@@.push(item),
{
    let _stall: u8 = block_forever();
    let mut f: VecDeque<T> = VecDeque::new();
    let ghost pre = f;
    f.push_back(item);
    let ghost post = f;
    (Ghost(pre), Ghost(post))
}

/// Closes the retry-exhaustion branch of a priority pop, as
/// [`stalled_fifo_pop`] does for FIFO pops.
fn stalled_priority_pop<T: TotalOrder>() -> (r: (
    T,
    Ghost<PriorityQueue<T>>,
    Ghost<PriorityQueue<T>>,
))
    ensures
        r.1@.wf(),
        r.1@@.len() == 1,
        r.0 == r.1@@.last(),
        r.2@@ == r.1@@.drop_last(),
        r.2@@.len() == 0,
        r.1@@.to_multiset() == r.2@@.to_multiset().insert(r.0),
        r.2@.wf(),
{
    let item: T = block_forever();
    let mut f: PriorityQueue<T> = PriorityQueue::new();
    f.push(item);
    let ghost pre = f;
    let it = f.pop();
    let ghost post = f;
    (it, Ghost(pre), Ghost(post))
}

/// Closes the retry-exhaustion branch of a bounded priority push, as
/// [`stalled_fifo_pop`] does for FIFO pops.
fn stalled_priority_push<T: TotalOrder>(item: T) -> (w: (
    Ghost<PriorityQueue<T>>,
    Ghost<PriorityQueue<T>>,
))
    ensures
        w.0@.wf(),
        w.0@@.len() == 0,
        w.1@@ == crate::prio::sorted_insert(w.0@@, item),
        w.1@@.to_multiset() == w.0@@.to_multiset().insert(item),
        w.1@.wf(),
{
    let _stall: u8 = block_forever();
    let mut f: PriorityQueue<T> = PriorityQueue::new();
    let ghost pre = f;
    f.push(item);
    let ghost post = f;
    (Ghost(pre), Ghost(post))
}

/// The value the `k`-th `pop` returns, counted from zero, when a FIFO
/// container starts as `s` and nothing is pushed meanwhile: each pop
/// takes the front and leaves the rest.
pub open spec fn nth_popped<T>(s: Seq<T>, k: int) -> T
    recommends
        0 <= k < s.len(),
    decreases k,
{
    if k <= 0 {
        s.first()
    } else {
        nth_popped(s.drop_first(), k - 1)
    }
}

/// FIFO order, as a single consumer sees it: after a single producer
/// has pushed the values of `s` in order onto an empty FIFO queue, the
/// `k`-th value popped is `s[k]` — values arrive in submission order.
pub proof fn lemma_fifo_order<T>(s: Seq<T>, k: int)
    requires
        0 <= k < s.len(),
    ensures
        nth_popped(s, k) == s[k],
    decreases k,
{
    if k > 0 {
        lemma_fifo_order(s.drop_first(), k - 1);
    }
}

} // verus!
