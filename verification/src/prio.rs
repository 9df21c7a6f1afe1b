//! The sequential priority container under the two priority facades.
//! It keeps its elements sorted ascending under the element order, so
//! the greatest element always sits at the back, and removing from the
//! back delivers elements in non-increasing order.
use vstd::prelude::*;

verus! {

use crate::order::Cmp;
use crate::order::TotalOrder;

/// Ascending under the element order.
pub open spec fn sorted_le<T: TotalOrder>(s: Seq<T>) -> bool {
    forall|i: int, j: int| 0 <= i <= j < s.len() ==> s[i].le(s[j])
}

/// Non-increasing under the element order.
pub open spec fn non_increasing<T: TotalOrder>(s: Seq<T>) -> bool {
    forall|i: int, j: int| 0 <= i <= j < s.len() ==> s[j].le(s[i])
}

/// Where `push` puts a value: behind every element that is no greater
/// than it, ahead of every strictly greater one — so a newly pushed
/// value comes after equal elements already present.
pub open spec fn sorted_insert<T: TotalOrder>(s: Seq<T>, x: T) -> Seq<T>
    decreases s.len(),
{
    if s.len() == 0 {
        seq![x]
    } else if s.last().le(x) {
        s.push(x)
    } else {
        sorted_insert(s.drop_last(), x).push(s.last())
    }
}

/// A single-threaded priority container: `push` inserts, `pop` removes
/// a greatest element under the total order of `T`.
pub struct PriorityQueue<T: TotalOrder> {
    items: Vec<T>,
}

impl<T: TotalOrder> View for PriorityQueue<T> {
    type V = Seq<T>;

    closed spec fn view(&self) -> Seq<T> {
        self.items@
    }
}

impl<T: TotalOrder> PriorityQueue<T> {
    /// The container's elements stand sorted ascending, so the last
    /// one is a greatest element.
    pub open spec fn wf(&self) -> bool {
        sorted_le(self@)
    }

    /// Return a new, empty container.
    pub fn new() -> (q: PriorityQueue<T>)
        ensures
            q.wf(),
            q@ == Seq::<T>::empty(),
    {
        PriorityQueue { items: Vec::new() }
    }

    /// The number of elements held.
    pub fn len(&self) -> (n: usize)
        ensures
            n == self@.len(),
    {
        self.items.len()
    }

    /// Insert a value, keeping the elements sorted.
    pub fn push(&mut self, item: T)
        requires
            old(self).wf(),
        ensures
            final(self).wf(),
            final(self)@ == sorted_insert(old(self)@, item),
            final(self)@.len() == old(self)@.len() + 1,
            final(self)@.to_multiset() == old(self)@.to_multiset().insert(item),
    {
        let ghost s0 = self.items@;
        let mut i: usize = self.items.len();
        loop
            invariant
                i <= s0.len(),
                self.items@ == s0,
                sorted_le(s0),
                forall|k: int| i <= k < s0.len() ==> item.le(#[trigger] s0[k]) && item != s0[k],
            ensures
                i <= s0.len(),
                self.items@ == s0,
                forall|k: int| i <= k < s0.len() ==> item.le(#[trigger] s0[k]) && item != s0[k],
                i > 0 ==> s0[i - 1].le(item),
            decreases i,
        {
            if i == 0 {
                break ;
            }
            match self.items[i - 1].compare(&item) {
                Cmp::Greater => {
                    i = i - 1;
                },
                Cmp::Less => {
                    break ;
                },
                Cmp::Equal => {
                    proof {
                        T::lemma_reflexive(item);
                    }
                    break ;
                },
            }
        }
        self.items.insert(i, item);
        proof {
            let s1 = self.items@;
            assert forall|p: int, q: int| 0 <= p <= q < s1.len() implies s1[p].le(s1[q]) by {
                if q < i {
                    assert(s1[p] == s0[p] && s1[q] == s0[q]);
                } else if p < i && q == i {
                    if p < i - 1 {
                        T::lemma_transitive(s0[p], s0[i - 1], item);
                    }
                } else if p < i && q > i {
                    assert(s1[q] == s0[q - 1]);
                } else if p == i && q == i {
                    T::lemma_reflexive(item);
                } else if p == i && q > i {
                    assert(s1[q] == s0[q - 1]);
                } else {
                    assert(s1[p] == s0[p - 1] && s1[q] == s0[q - 1]);
                }
            }
            lemma_insert_to_multiset(s0, i as int, item);
            lemma_sorted_insert_at(s0, item, i as int);
        }
    }

    /// Remove and return a greatest element: the last of the sorted
    /// elements. Every element left behind is no greater than it.
    pub fn pop(&mut self) -> (m: T)
        requires
            old(self).wf(),
            old(self)@.len() > 0,
        ensures
            final(self).wf(),
            m == old(self)@.last(),
            final(self)@ == old(self)@.drop_last(),
            forall|k: int| 0 <= k < final(self)@.len() ==> #[trigger] final(self)@[k].le(m),
            old(self)@.to_multiset() == final(self)@.to_multiset().insert(m),
    {
        let m = self.items.pop().unwrap();
        proof {
            broadcast use vstd::seq_lib::group_to_multiset_ensures;

            assert(self.items@ =~= old(self)@.drop_last());
            assert(old(self)@ =~= self.items@.push(m));
        }
        m
    }
}

/// Inserting at the position `push` finds — behind every element that
/// is no greater, ahead of every strictly greater one — builds exactly
/// the sequence `sorted_insert` describes.
proof fn lemma_sorted_insert_at<T: TotalOrder>(s: Seq<T>, x: T, i: int)
    requires
        0 <= i <= s.len(),
        i > 0 ==> s[i - 1].le(x),
        forall|k: int| i <= k < s.len() ==> x.le(#[trigger] s[k]) && x != s[k],
    ensures
        s.insert(i, x) == sorted_insert(s, x),
    decreases s.len(),
{
    if i == s.len() {
        if s.len() == 0 {
            assert(s.insert(0, x) =~= seq![x]);
        } else {
            assert(s.insert(i, x) =~= s.push(x));
        }
    } else {
        if s.last().le(x) {
            T::lemma_antisymmetric(x, s.last());
            assert(false);
        }
        let s2 = s.drop_last();
        lemma_sorted_insert_at(s2, x, i);
        assert(s.insert(i, x) =~= s2.insert(i, x).push(s.last()));
        assert(s.insert(i, x) =~= sorted_insert(s, x));
    }
}

/// Inserting an element anywhere in a sequence adds exactly that
/// element to its contents.
proof fn lemma_insert_to_multiset<T>(s: Seq<T>, i: int, a: T)
    requires
        0 <= i <= s.len(),
    ensures
        s.insert(i, a).to_multiset() == s.to_multiset().insert(a),
{
    broadcast use vstd::seq_lib::group_to_multiset_ensures;

    let t = s.insert(i, a);
    assert(t.remove(i) =~= s);
    assert(t[i] == a);
    assert(t.to_multiset().remove(a) =~= s.to_multiset());
    assert(t.to_multiset().contains(a)) by {
        assert(t.contains(a));
    }
    assert forall|x: T| t.to_multiset().count(x) == s.to_multiset().insert(a).count(x) by {
        if x == a {
            assert(t.to_multiset().remove(a).count(a) == s.to_multiset().count(a));
        } else {
            assert(t.to_multiset().remove(a).count(x) == s.to_multiset().count(x));
        }
    }
    assert(t.to_multiset() =~= s.to_multiset().insert(a));
}

/// Priority order, as the consumer sees it: once pushes have stopped,
/// `pop` takes the back of the sorted elements and leaves the rest, so
/// the run of values a consumer pops is the reverse of the sorted
/// elements; and the reverse of a sorted sequence is non-increasing.
pub proof fn lemma_priority_drain<T: TotalOrder>(s: Seq<T>)
    requires
        sorted_le(s),
    ensures
        non_increasing(s.reverse()),
{
    let r = s.reverse();
    assert forall|i: int, j: int| 0 <= i <= j < r.len() implies r[j].le(r[i]) by {
        assert(r[i] == s[s.len() - 1 - i]);
        assert(r[j] == s[s.len() - 1 - j]);
    }
}

} // verus!
