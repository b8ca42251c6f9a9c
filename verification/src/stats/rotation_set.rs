use vstd::prelude::*;

verus! {

/// The rows (relative to the current one) at which a column or a polynomial
/// is queried: first, previous, current, next and last.
#[derive(Clone, Copy, Debug, Default, PartialEq, Eq, Structural)]
pub struct RotationSet {
    pub first: bool,
    pub prev: bool,
    pub curr: bool,
    pub next: bool,
    pub last: bool,
}

/// Number of `true` flags among five.
pub open spec fn count_true(a: bool, b: bool, c: bool, d: bool, e: bool) -> nat {
    (if a { 1nat } else { 0nat }) + (if b { 1nat } else { 0nat }) + (if c { 1nat } else { 0nat })
        + (if d { 1nat } else { 0nat }) + (if e { 1nat } else { 0nat })
}

impl RotationSet {
    /// Number of rotations in the set.
    pub open spec fn spec_count(self) -> nat {
        count_true(self.first, self.prev, self.curr, self.next, self.last)
    }

    /// The set with no rotation at all.
    pub open spec fn spec_is_empty(self) -> bool {
        !self.first && !self.prev && !self.curr && !self.next && !self.last
    }

    /// Union of two rotation sets.
    pub open spec fn union(self, other: Self) -> Self {
        RotationSet {
            first: self.first || other.first,
            prev: self.prev || other.prev,
            curr: self.curr || other.curr,
            next: self.next || other.next,
            last: self.last || other.last,
        }
    }

    /// The set holding only the current row.
    pub open spec fn spec_curr() -> Self {
        RotationSet { first: false, prev: false, curr: true, next: false, last: false }
    }

    /// Position of the set in the order derived from its fields
    /// (first, prev, curr, next, last), as a five-bit number.
    pub open spec fn spec_key(self) -> nat {
        (if self.first { 16nat } else { 0nat }) + (if self.prev { 8nat } else { 0nat }) + (if self.curr {
            4nat
        } else {
            0nat
        }) + (if self.next { 2nat } else { 0nat }) + (if self.last { 1nat } else { 0nat })
    }

    /// The empty set.
    pub open spec fn default_spec() -> Self {
        RotationSet { first: false, prev: false, curr: false, next: false, last: false }
    }

    pub fn none() -> (r: Self)
        ensures
            r == Self::default_spec(),
    {
        RotationSet { first: false, prev: false, curr: false, next: false, last: false }
    }

    pub fn new(first: bool, prev: bool, curr: bool, next: bool, last: bool) -> (r: Self)
        ensures
            r == (RotationSet { first, prev, curr, next, last }),
    {
        RotationSet { first, prev, curr, next, last }
    }

    pub fn curr() -> (r: Self)
        ensures
            r == Self::spec_curr(),
    {
        RotationSet { first: false, prev: false, curr: true, next: false, last: false }
    }

    /// Adds every rotation of `other` to `self`.
    pub fn merge(&mut self, other: &Self)
        ensures
            *final(self) == old(self).union(*other),
    {
        self.first = self.first || other.first;
        self.prev = self.prev || other.prev;
        self.curr = self.curr || other.curr;
        self.next = self.next || other.next;
        self.last = self.last || other.last;
    }

    pub fn count(&self) -> (n: usize)
        ensures
            n == self.spec_count(),
    {
        let mut n: usize = 0;
        if self.first {
            n = n + 1;
        }
        if self.prev {
            n = n + 1;
        }
        if self.curr {
            n = n + 1;
        }
        if self.next {
            n = n + 1;
        }
        if self.last {
            n = n + 1;
        }
        n
    }

    pub fn is_empty(&self) -> (b: bool)
        ensures
            b == self.spec_is_empty(),
    {
        !self.first && !self.prev && !self.curr && !self.next && !self.last
    }

    /// The five-bit key that orders rotation sets as their derived order does.
    pub fn key(&self) -> (k: usize)
        ensures
            k == self.spec_key(),
            k < 32,
    {
        let mut k: usize = 0;
        if self.first {
            k = k + 16;
        }
        if self.prev {
            k = k + 8;
        }
        if self.curr {
            k = k + 4;
        }
        if self.next {
            k = k + 2;
        }
        if self.last {
            k = k + 1;
        }
        k
    }
}

} // verus!
