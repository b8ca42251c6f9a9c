use vstd::prelude::*;

verus! {

/// Cost breakdown of a scalar expression: how many negations, additions,
/// subtractions, multiplications and integer-to-scalar conversions it takes.
#[derive(Clone, Copy, Debug, Default, PartialEq, Eq, Structural)]
pub struct ScalarOps {
    pub nb_neg: usize,
    pub nb_add: usize,
    pub nb_sub: usize,
    pub nb_mul: usize,
    pub nb_from_int: usize,
}

impl ScalarOps {
    /// The sum of two cost breakdowns fits in `usize`.
    pub open spec fn can_add(self, other: Self) -> bool {
        &&& self.nb_neg + other.nb_neg <= usize::MAX
        &&& self.nb_add + other.nb_add <= usize::MAX
        &&& self.nb_sub + other.nb_sub <= usize::MAX
        &&& self.nb_mul + other.nb_mul <= usize::MAX
        &&& self.nb_from_int + other.nb_from_int <= usize::MAX
    }

    /// Field-wise sum (meaningful when `can_add` holds).
    pub open spec fn spec_add(self, other: Self) -> Self {
        ScalarOps {
            nb_neg: (self.nb_neg + other.nb_neg) as usize,
            nb_add: (self.nb_add + other.nb_add) as usize,
            nb_sub: (self.nb_sub + other.nb_sub) as usize,
            nb_mul: (self.nb_mul + other.nb_mul) as usize,
            nb_from_int: (self.nb_from_int + other.nb_from_int) as usize,
        }
    }

    pub open spec fn zero() -> Self {
        ScalarOps { nb_neg: 0, nb_add: 0, nb_sub: 0, nb_mul: 0, nb_from_int: 0 }
    }

    pub fn new(neg: usize, add: usize, sub: usize, mul: usize, from_int: usize) -> (r: Self)
        ensures
            r == (ScalarOps { nb_neg: neg, nb_add: add, nb_sub: sub, nb_mul: mul, nb_from_int: from_int }),
    {
        ScalarOps { nb_neg: neg, nb_add: add, nb_sub: sub, nb_mul: mul, nb_from_int: from_int }
    }

    pub fn empty() -> (r: Self)
        ensures
            r == Self::zero(),
    {
        ScalarOps { nb_neg: 0, nb_add: 0, nb_sub: 0, nb_mul: 0, nb_from_int: 0 }
    }

    /// Field-wise sum of two cost breakdowns.
    pub fn add(&self, other: &Self) -> (r: Self)
        requires
            self.can_add(*other),
        ensures
            r == self.spec_add(*other),
    {
        ScalarOps {
            nb_neg: self.nb_neg + other.nb_neg,
            nb_add: self.nb_add + other.nb_add,
            nb_sub: self.nb_sub + other.nb_sub,
            nb_mul: self.nb_mul + other.nb_mul,
            nb_from_int: self.nb_from_int + other.nb_from_int,
        }
    }
}

} // verus!
