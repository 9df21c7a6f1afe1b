//! The total order that the priority queues sort by. A type brings its
//! own order: a specification-level relation, proofs that the relation
//! is a total order, and an executable three-way comparison that agrees
//! with it.
use vstd::prelude::*;

verus! {

/// The outcome of a three-way comparison.
pub enum Cmp {
    Less,
    Equal,
    Greater,
}

/// A total order supplied by the element type of a priority queue.
///
/// `le` is the mathematical relation the queues are specified against;
/// the four proof obligations make it a total order, and `compare` is
/// the executable decision procedure for it. A priority queue delivers
/// a greatest element under `le` first.
pub trait TotalOrder: Sized {
    /// The order itself: whether `self` comes no later than `other`.
    spec fn le(self, other: Self) -> bool;

    /// Every value compares no later than itself.
    proof fn lemma_reflexive(x: Self)
        ensures
            x.le(x),
    ;

    /// The order composes along chains.
    proof fn lemma_transitive(x: Self, y: Self, z: Self)
        requires
            x.le(y),
            y.le(z),
        ensures
            x.le(z),
    ;

    /// Two values each no later than the other are the same value.
    proof fn lemma_antisymmetric(x: Self, y: Self)
        requires
            x.le(y),
            y.le(x),
        ensures
            x == y,
    ;

    /// Any two values are ordered one way or the other.
    proof fn lemma_total(x: Self, y: Self)
        ensures
            x.le(y) || y.le(x),
    ;

    /// Decide the order of two values.
    fn compare(&self, other: &Self) -> (c: Cmp)
        ensures
            (match c {
                Cmp::Less => self.le(*other) && *self != *other,
                Cmp::Equal => *self == *other,
                Cmp::Greater => other.le(*self) && *self != *other,
            }),
    ;
}

impl TotalOrder for i64 {
    open spec fn le(self, other: i64) -> bool {
        self <= other
    }

    proof fn lemma_reflexive(x: i64) {
    }

    proof fn lemma_transitive(x: i64, y: i64, z: i64) {
    }

    proof fn lemma_antisymmetric(x: i64, y: i64) {
    }

    proof fn lemma_total(x: i64, y: i64) {
    }

    fn compare(&self, other: &i64) -> (c: Cmp)
        ensures
            (match c {
                Cmp::Less => TotalOrder::le(*self, *other) && *self != *other,
                Cmp::Equal => *self == *other,
                Cmp::Greater => TotalOrder::le(*other, *self) && *self != *other,
            }),
    {
        if *self < *other {
            Cmp::Less
        } else if *self == *other {
            Cmp::Equal
        } else {
            Cmp::Greater
        }
    }
}

/// A pair ordered lexicographically: by the first component, and by the
/// second where the first components are equal.
#[derive(Clone, Copy, PartialEq, Eq, Structural, Debug)]
pub struct Pair {
    pub fst: i64,
    pub snd: i64,
}

impl TotalOrder for Pair {
    open spec fn le(self, other: Pair) -> bool {
        self.fst < other.fst || (self.fst == other.fst && self.snd <= other.snd)
    }

    proof fn lemma_reflexive(x: Pair) {
    }

    proof fn lemma_transitive(x: Pair, y: Pair, z: Pair) {
    }

    proof fn lemma_antisymmetric(x: Pair, y: Pair) {
    }

    proof fn lemma_total(x: Pair, y: Pair) {
    }

    fn compare(&self, other: &Pair) -> (c: Cmp)
        ensures
            (match c {
                Cmp::Less => TotalOrder::le(*self, *other) && *self != *other,
                Cmp::Equal => *self == *other,
                Cmp::Greater => TotalOrder::le(*other, *self) && *self != *other,
            }),
    {
        if self.fst < other.fst {
            Cmp::Less
        } else if self.fst > other.fst {
            Cmp::Greater
        } else if self.snd < other.snd {
            Cmp::Less
        } else if self.snd > other.snd {
            Cmp::Greater
        } else {
            Cmp::Equal
        }
    }
}

} // verus!
