use vstd::prelude::*;

use super::counts::OpCounts;
use super::expression::ScalarExpression;
use super::scalar_ops::ScalarOps;

verus! {

/// Operation counts of a verifier, together with the sizes of its proof and
/// verification key.
#[derive(Clone, Debug)]
pub struct CircuitStatistics {
    pub transcript_size: usize,
    pub public_inputs: usize,
    pub committed_instances: usize,
    pub proof_size: usize,
    pub vk_size: usize,
    pub degree: usize,
    /// Size of the transcript at each hash (one per squeezed challenge).
    pub hash: Vec<usize>,
    pub neg_scalar: usize,
    pub add_scalar: usize,
    pub sub_scalar: usize,
    pub mul_scalar: usize,
    pub inv_scalar: usize,
    pub pow_scalar: usize,
    pub to_bytes_scalar: usize,
    pub from_bytes_scalar: usize,
    pub from_int_scalar: usize,
    pub add_point: usize,
    pub mul_point: usize,
    /// Size of each multi-scalar multiplication.
    pub msm: Vec<usize>,
    pub from_bytes_point: usize,
    pub decompress_point: usize,
    pub compress_point: usize,
    pub miller_loop: usize,
    pub pairing: usize,
}

impl ScalarOps {
    /// The counts that evaluating an expression of this cost adds.
    pub open spec fn as_counts(self) -> OpCounts {
        OpCounts {
            neg: self.nb_neg as int,
            add: self.nb_add as int,
            sub: self.nb_sub as int,
            mul: self.nb_mul as int,
            from_int: self.nb_from_int as int,
            ..OpCounts::zero()
        }
    }
}

/// Reading `k` points from the proof.
pub open spec fn read_points_ops(k: int) -> OpCounts {
    OpCounts { transcript: 48 * k, from_bytes_point: k, decompress: k, ..OpCounts::zero() }
}

/// Reading `k` scalars from the proof.
pub open spec fn read_scalars_ops(k: int) -> OpCounts {
    OpCounts { transcript: 32 * k, from_bytes: k, ..OpCounts::zero() }
}

/// Absorbing `k` scalars into the transcript.
pub open spec fn common_scalars_ops(k: int) -> OpCounts {
    OpCounts { transcript: 32 * k, to_bytes: k, ..OpCounts::zero() }
}

/// Absorbing `k` G1 points into the transcript.
pub open spec fn common_g1s_ops(k: int) -> OpCounts {
    OpCounts { transcript: 48 * k, ..OpCounts::zero() }
}

/// Computing `k` rotations of omega.
pub open spec fn rotates_ops(k: int) -> OpCounts {
    OpCounts { pow: k, mul: k, ..OpCounts::zero() }
}

/// Cost of inverting `size` scalars at once (size >= 1): `3 * (size - 1)`
/// multiplications and a single inversion.
pub open spec fn batch_inversion_ops(size: int) -> OpCounts {
    OpCounts { mul: 3 * (size - 1), inv: 1, ..OpCounts::zero() }
}

/// Cost of the Lagrange basis at `range` points: the common factor, `range`
/// subtractions, a batch inversion and two multiplications per point.
pub open spec fn lagrange_basis_ops(range: int) -> OpCounts {
    OpCounts { mul: 1 + 2 * range, sub: range, ..OpCounts::zero() }.plus(batch_inversion_ops(range))
}

/// Cost of a Lagrange interpolation evaluated at one point, over `size` points.
pub open spec fn lagrange_eval_ops(size: int) -> OpCounts {
    OpCounts { sub: 2 * (size * (size - 1)), mul: 2 * (size * (size - 1)), ..OpCounts::zero() }.plus(
        batch_inversion_ops(size),
    ).plus(OpCounts { add: size, mul: 2 * size, ..OpCounts::zero() })
}

/// Cost of an inner product of length `size`.
pub open spec fn inner_product_ops(size: int) -> OpCounts {
    OpCounts { add: size, mul: size, ..OpCounts::zero() }
}

impl CircuitStatistics {
    /// The operation counts recorded so far.
    pub open spec fn counts(&self) -> OpCounts {
        OpCounts {
            neg: self.neg_scalar as int,
            add: self.add_scalar as int,
            sub: self.sub_scalar as int,
            mul: self.mul_scalar as int,
            inv: self.inv_scalar as int,
            pow: self.pow_scalar as int,
            to_bytes: self.to_bytes_scalar as int,
            from_bytes: self.from_bytes_scalar as int,
            from_int: self.from_int_scalar as int,
            add_point: self.add_point as int,
            mul_point: self.mul_point as int,
            from_bytes_point: self.from_bytes_point as int,
            decompress: self.decompress_point as int,
            compress: self.compress_point as int,
            transcript: self.transcript_size as int,
        }
    }

    /// The fields that describe the circuit rather than count operations.
    pub open spec fn same_header(&self, o: &Self) -> bool {
        &&& self.public_inputs == o.public_inputs
        &&& self.committed_instances == o.committed_instances
        &&& self.proof_size == o.proof_size
        &&& self.vk_size == o.vk_size
        &&& self.degree == o.degree
        &&& self.miller_loop == o.miller_loop
        &&& self.pairing == o.pairing
    }

    /// `new` is `old` after operations costing `d`, with no hash and no MSM recorded.
    pub open spec fn stepped(old: &Self, new: &Self, d: OpCounts) -> bool {
        &&& new.counts() == old.counts().plus(d)
        &&& new.hash@ == old.hash@
        &&& new.msm@ == old.msm@
        &&& new.same_header(old)
    }

    /// Adding `d` to the counts keeps them within `usize`.
    pub open spec fn room_for(&self, d: OpCounts) -> bool {
        self.counts().plus(d).fits()
    }

    /// Fresh statistics: no operation yet, two Miller loops and one pairing.
    pub fn new(
        proof_size: usize,
        vk_size: usize,
        degree: usize,
        public_inputs: usize,
        committed_instances: usize,
    ) -> (s: Self)
        ensures
            s.counts() == OpCounts::zero(),
            s.hash@ == Seq::<usize>::empty(),
            s.msm@ == Seq::<usize>::empty(),
            s.proof_size == proof_size,
            s.vk_size == vk_size,
            s.degree == degree,
            s.public_inputs == public_inputs,
            s.committed_instances == committed_instances,
            s.miller_loop == 2,
            s.pairing == 1,
    {
        CircuitStatistics {
            transcript_size: 0,
            public_inputs,
            committed_instances,
            proof_size,
            vk_size,
            degree,
            hash: Vec::new(),
            neg_scalar: 0,
            add_scalar: 0,
            sub_scalar: 0,
            mul_scalar: 0,
            inv_scalar: 0,
            pow_scalar: 0,
            to_bytes_scalar: 0,
            from_bytes_scalar: 0,
            from_int_scalar: 0,
            add_point: 0,
            mul_point: 0,
            msm: Vec::new(),
            from_bytes_point: 0,
            decompress_point: 0,
            compress_point: 0,
            miller_loop: 2,
            pairing: 1,
        }
    }

    /// Statistics of a circuit without advice columns: everything zero.
    pub fn empty() -> (s: Self)
        ensures
            s.counts() == OpCounts::zero(),
            s.hash@ == Seq::<usize>::empty(),
            s.msm@ == Seq::<usize>::empty(),
            s.proof_size == 0 && s.vk_size == 0 && s.degree == 0,
            s.public_inputs == 0 && s.committed_instances == 0,
            s.miller_loop == 0 && s.pairing == 0,
    {
        let mut s = Self::new(0, 0, 0, 0, 0);
        s.miller_loop = 0;
        s.pairing = 0;
        s
    }

    /// Adds the cost of one expression.
    pub fn consume_expression(&mut self, exp: &ScalarExpression)
        requires
            old(self).room_for(exp.ops.as_counts()),
        ensures
            Self::stepped(old(self), final(self), exp.ops.as_counts()),
    {
        self.neg_scalar = self.neg_scalar + exp.ops.nb_neg;
        self.add_scalar = self.add_scalar + exp.ops.nb_add;
        self.sub_scalar = self.sub_scalar + exp.ops.nb_sub;
        self.mul_scalar = self.mul_scalar + exp.ops.nb_mul;
        self.from_int_scalar = self.from_int_scalar + exp.ops.nb_from_int;
    }

    /// Cost of the Lagrange basis at `range` points.
    pub fn lagrange_polynomial_basis(&mut self, range: usize)
        requires
            range >= 1,
            old(self).room_for(lagrange_basis_ops(range as int)),
        ensures
            Self::stepped(old(self), final(self), lagrange_basis_ops(range as int)),
    {
        // common = mul(sub_int(xn, 1), barycentric_weight)
        self.mul_scalar();
        // (x - omega_i) for every point
        self.sub_scalar_times(range);
        self.batch_inversion(range);
        // omega_i * common * (x - omega_i)^-1 for every point
        self.mul_scalar_times(range);
        self.mul_scalar_times(range);
    }

    /// Cost of evaluating a Lagrange interpolation over `size` points.
    pub fn lagrange_evaluation(&mut self, size: usize)
        requires
            size >= 1,
            old(self).room_for(lagrange_eval_ops(size as int)),
        ensures
            Self::stepped(old(self), final(self), lagrange_eval_ops(size as int)),
    {
        let ghost s0 = *old(self);
        let ghost total: int = size * (size - 1);
        // numerators and denominators: (size - 1) pairs per point
        let mut i: usize = 0;
        while i < size
            invariant
                i <= size,
                size >= 1,
                total == size * (size - 1),
                Self::stepped(
                    &s0,
                    self,
                    OpCounts { sub: 2 * (i * (size - 1)), mul: 2 * (i * (size - 1)), ..OpCounts::zero() },
                ),
                s0.room_for(lagrange_eval_ops(size as int)),
            decreases size - i,
        {
            let mut j: usize = 0;
            while j < size - 1
                invariant
                    j <= size - 1,
                    i < size,
                    total == size * (size - 1),
                    Self::stepped(
                        &s0,
                        self,
                        OpCounts {
                            sub: 2 * (i * (size - 1) + j),
                            mul: 2 * (i * (size - 1) + j),
                            ..OpCounts::zero()
                        },
                    ),
                    s0.room_for(lagrange_eval_ops(size as int)),
                decreases size - 1 - j,
            {
                assert(i * (size - 1) + j + 1 <= size * (size - 1)) by (nonlinear_arith)
                    requires
                        i < size,
                        j < size - 1,
                ;
                self.sub_scalar();
                self.sub_scalar();
                self.mul_scalar();
                self.mul_scalar();
                j = j + 1;
            }
            assert(i * (size - 1) + (size - 1) == (i + 1) * (size - 1)) by (nonlinear_arith);
            i = i + 1;
        }
        self.batch_inversion(size);
        // aggregation
        let mut k: usize = 0;
        while k < size
            invariant
                k <= size,
                size >= 1,
                Self::stepped(
                    &s0,
                    self,
                    OpCounts { sub: 2 * (size * (size - 1)), mul: 2 * (size * (size - 1)), ..OpCounts::zero() }.plus(batch_inversion_ops(size as int)).plus(
                        OpCounts { add: k as int, mul: 2 * k, ..OpCounts::zero() },
                    ),
                ),
                s0.room_for(lagrange_eval_ops(size as int)),
            decreases size - k,
        {
            self.add_scalar();
            self.mul_scalar();
            self.mul_scalar();
            k = k + 1;
        }
    }

    /// Cost of an inner product of length `size`.
    pub fn inner_product(&mut self, size: usize)
        requires
            old(self).room_for(inner_product_ops(size as int)),
        ensures
            Self::stepped(old(self), final(self), inner_product_ops(size as int)),
    {
        let ghost s0 = *old(self);
        let mut i: usize = 0;
        while i < size
            invariant
                i <= size,
                Self::stepped(&s0, self, inner_product_ops(i as int)),
                s0.room_for(inner_product_ops(size as int)),
            decreases size - i,
        {
            self.add_scalar();
            self.mul_scalar();
            i = i + 1;
        }
    }

    /// Reading `k` points from the proof.
pub open spec fn read_points_ops(k: int) -> OpCounts {
    OpCounts { transcript: 48 * k, from_bytes_point: k, decompress: k, ..OpCounts::zero() }
}

/// Reading `k` scalars from the proof.
pub open spec fn read_scalars_ops(k: int) -> OpCounts {
    OpCounts { transcript: 32 * k, from_bytes: k, ..OpCounts::zero() }
}

/// Absorbing `k` scalars into the transcript.
pub open spec fn common_scalars_ops(k: int) -> OpCounts {
    OpCounts { transcript: 32 * k, to_bytes: k, ..OpCounts::zero() }
}

/// Absorbing `k` G1 points into the transcript.
pub open spec fn common_g1s_ops(k: int) -> OpCounts {
    OpCounts { transcript: 48 * k, ..OpCounts::zero() }
}

/// Computing `k` rotations of omega.
pub open spec fn rotates_ops(k: int) -> OpCounts {
    OpCounts { pow: k, mul: k, ..OpCounts::zero() }
}

/// Cost of inverting `size` scalars with a single inversion.
    pub fn batch_inversion(&mut self, size: usize)
        requires
            size >= 1,
            old(self).room_for(batch_inversion_ops(size as int)),
        ensures
            Self::stepped(old(self), final(self), batch_inversion_ops(size as int)),
    {
        let ghost s0 = *old(self);
        // reversed cumulative products
        self.mul_scalar_times(size - 1);
        // single inversion of the common denominator
        self.inv_scalar();
        // every other inverse
        let mut i: usize = 0;
        while i < size - 1
            invariant
                i <= size - 1,
                size >= 1,
                Self::stepped(
                    &s0,
                    self,
                    OpCounts { mul: (size - 1) + 2 * i, inv: 1, ..OpCounts::zero() },
                ),
                s0.room_for(batch_inversion_ops(size as int)),
            decreases size - 1 - i,
        {
            self.mul_scalar();
            self.mul_scalar();
            i = i + 1;
        }
    }

    /// Reads a scalar from the proof.
    pub fn read_scalar(&mut self)
        requires
            old(self).room_for(OpCounts::read_scalar1()),
        ensures
            Self::stepped(old(self), final(self), OpCounts::read_scalar1()),
    {
        self.transcript_size = self.transcript_size + 32;
        self.from_bytes_scalar = self.from_bytes_scalar + 1;
    }

    /// Absorbs a scalar into the transcript.
    pub fn common_scalar(&mut self)
        requires
            old(self).room_for(OpCounts::common_scalar1()),
        ensures
            Self::stepped(old(self), final(self), OpCounts::common_scalar1()),
    {
        self.to_bytes_scalar = self.to_bytes_scalar + 1;
        self.transcript_size = self.transcript_size + 32;
    }

    /// Reads a point from the proof.
    pub fn read_point(&mut self)
        requires
            old(self).room_for(OpCounts::read_point1()),
        ensures
            Self::stepped(old(self), final(self), OpCounts::read_point1()),
    {
        self.transcript_size = self.transcript_size + 48;
        self.from_bytes_point = self.from_bytes_point + 1;
        self.decompress_point = self.decompress_point + 1;
    }

    /// Absorbs a G1 point into the transcript.
    pub fn common_g1(&mut self)
        requires
            old(self).room_for(OpCounts::common_g1_1()),
        ensures
            Self::stepped(old(self), final(self), OpCounts::common_g1_1()),
    {
        self.transcript_size = self.transcript_size + 48;
    }

    /// Squeezes a challenge: hashes the transcript as it stands.
    pub fn squeeze_challenge(&mut self)
        requires
            old(self).room_for(OpCounts::squeeze1()),
        ensures
            final(self).counts() == old(self).counts().plus(OpCounts::squeeze1()),
            final(self).hash@ == old(self).hash@.push(old(self).transcript_size),
            final(self).msm@ == old(self).msm@,
            final(self).same_header(old(self)),
    {
        self.hash.push(self.transcript_size);
        self.from_bytes_scalar = self.from_bytes_scalar + 2;
    }

    /// Computes a rotation of omega.
    pub fn rotate_omega(&mut self)
        requires
            old(self).room_for(OpCounts::rotate1()),
        ensures
            Self::stepped(old(self), final(self), OpCounts::rotate1()),
    {
        self.pow_scalar = self.pow_scalar + 1;
        self.mul_scalar = self.mul_scalar + 1;
    }

    /// Records a multi-scalar multiplication of `size` terms.
    pub fn msm(&mut self, size: usize)
        ensures
            final(self).counts() == old(self).counts(),
            final(self).hash@ == old(self).hash@,
            final(self).msm@ == old(self).msm@.push(size),
            final(self).same_header(old(self)),
    {
        self.msm.push(size);
    }

    pub fn scale(&mut self)
        requires
            old(self).room_for(OpCounts::mul_point1()),
        ensures
            Self::stepped(old(self), final(self), OpCounts::mul_point1()),
    {
        self.mul_point = self.mul_point + 1;
    }

    pub fn add_point(&mut self)
        requires
            old(self).room_for(OpCounts::add_point1()),
        ensures
            Self::stepped(old(self), final(self), OpCounts::add_point1()),
    {
        self.add_point = self.add_point + 1;
    }

    pub fn decompress_point(&mut self)
        requires
            old(self).room_for(OpCounts::decompress1()),
        ensures
            Self::stepped(old(self), final(self), OpCounts::decompress1()),
    {
        self.decompress_point = self.decompress_point + 1;
    }

    pub fn compress_point(&mut self)
        requires
            old(self).room_for(OpCounts::compress1()),
        ensures
            Self::stepped(old(self), final(self), OpCounts::compress1()),
    {
        self.compress_point = self.compress_point + 1;
    }

    pub fn neg_scalar(&mut self)
        requires
            old(self).room_for(OpCounts::neg1()),
        ensures
            Self::stepped(old(self), final(self), OpCounts::neg1()),
    {
        self.neg_scalar = self.neg_scalar + 1;
    }

    pub fn add_scalar(&mut self)
        requires
            old(self).room_for(OpCounts::add1()),
        ensures
            Self::stepped(old(self), final(self), OpCounts::add1()),
    {
        self.add_scalar = self.add_scalar + 1;
    }

    pub fn sub_scalar(&mut self)
        requires
            old(self).room_for(OpCounts::sub1()),
        ensures
            Self::stepped(old(self), final(self), OpCounts::sub1()),
    {
        self.sub_scalar = self.sub_scalar + 1;
    }

    pub fn mul_scalar(&mut self)
        requires
            old(self).room_for(OpCounts::mul1()),
        ensures
            Self::stepped(old(self), final(self), OpCounts::mul1()),
    {
        self.mul_scalar = self.mul_scalar + 1;
    }

    pub fn inv_scalar(&mut self)
        requires
            old(self).room_for(OpCounts::inv1()),
        ensures
            Self::stepped(old(self), final(self), OpCounts::inv1()),
    {
        self.inv_scalar = self.inv_scalar + 1;
    }

    pub fn pow_scalar(&mut self)
        requires
            old(self).room_for(OpCounts::pow1()),
        ensures
            Self::stepped(old(self), final(self), OpCounts::pow1()),
    {
        self.pow_scalar = self.pow_scalar + 1;
    }

    pub fn from_int_scalar(&mut self)
        requires
            old(self).room_for(OpCounts::from_int1()),
        ensures
            Self::stepped(old(self), final(self), OpCounts::from_int1()),
    {
        self.from_int_scalar = self.from_int_scalar + 1;
    }

    /// `k` points read from the proof.
    pub fn read_points(&mut self, k: usize)
        requires
            old(self).room_for(read_points_ops(k as int)),
        ensures
            Self::stepped(old(self), final(self), read_points_ops(k as int)),
    {
        let ghost s0 = *old(self);
        let mut i: usize = 0;
        while i < k
            invariant
                i <= k,
                Self::stepped(&s0, self, read_points_ops(i as int)),
                s0.room_for(read_points_ops(k as int)),
            decreases k - i,
        {
            self.read_point();
            i = i + 1;
        }
    }

    /// `k` scalars read from the proof.
    pub fn read_scalars(&mut self, k: usize)
        requires
            old(self).room_for(read_scalars_ops(k as int)),
        ensures
            Self::stepped(old(self), final(self), read_scalars_ops(k as int)),
    {
        let ghost s0 = *old(self);
        let mut i: usize = 0;
        while i < k
            invariant
                i <= k,
                Self::stepped(&s0, self, read_scalars_ops(i as int)),
                s0.room_for(read_scalars_ops(k as int)),
            decreases k - i,
        {
            self.read_scalar();
            i = i + 1;
        }
    }

    /// `k` scalars absorbed into the transcript.
    pub fn common_scalars(&mut self, k: usize)
        requires
            old(self).room_for(common_scalars_ops(k as int)),
        ensures
            Self::stepped(old(self), final(self), common_scalars_ops(k as int)),
    {
        let ghost s0 = *old(self);
        let mut i: usize = 0;
        while i < k
            invariant
                i <= k,
                Self::stepped(&s0, self, common_scalars_ops(i as int)),
                s0.room_for(common_scalars_ops(k as int)),
            decreases k - i,
        {
            self.common_scalar();
            i = i + 1;
        }
    }

    /// `k` G1 points absorbed into the transcript.
    pub fn common_g1s(&mut self, k: usize)
        requires
            old(self).room_for(common_g1s_ops(k as int)),
        ensures
            Self::stepped(old(self), final(self), common_g1s_ops(k as int)),
    {
        let ghost s0 = *old(self);
        let mut i: usize = 0;
        while i < k
            invariant
                i <= k,
                Self::stepped(&s0, self, common_g1s_ops(i as int)),
                s0.room_for(common_g1s_ops(k as int)),
            decreases k - i,
        {
            self.common_g1();
            i = i + 1;
        }
    }

    /// `k` rotations of omega.
    pub fn rotate_omegas(&mut self, k: usize)
        requires
            old(self).room_for(rotates_ops(k as int)),
        ensures
            Self::stepped(old(self), final(self), rotates_ops(k as int)),
    {
        let ghost s0 = *old(self);
        let mut i: usize = 0;
        while i < k
            invariant
                i <= k,
                Self::stepped(&s0, self, rotates_ops(i as int)),
                s0.room_for(rotates_ops(k as int)),
            decreases k - i,
        {
            self.rotate_omega();
            i = i + 1;
        }
    }

    /// `k` scalar multiplications.
    pub fn mul_scalar_times(&mut self, k: usize)
        requires
            old(self).room_for(OpCounts { mul: k as int, ..OpCounts::zero() }),
        ensures
            Self::stepped(old(self), final(self), OpCounts { mul: k as int, ..OpCounts::zero() }),
    {
        self.mul_scalar = self.mul_scalar + k;
    }

    /// `k` scalar additions.
    pub fn add_scalar_times(&mut self, k: usize)
        requires
            old(self).room_for(OpCounts { add: k as int, ..OpCounts::zero() }),
        ensures
            Self::stepped(old(self), final(self), OpCounts { add: k as int, ..OpCounts::zero() }),
    {
        self.add_scalar = self.add_scalar + k;
    }

    /// `k` scalar subtractions.
    pub fn sub_scalar_times(&mut self, k: usize)
        requires
            old(self).room_for(OpCounts { sub: k as int, ..OpCounts::zero() }),
        ensures
            Self::stepped(old(self), final(self), OpCounts { sub: k as int, ..OpCounts::zero() }),
    {
        self.sub_scalar = self.sub_scalar + k;
    }
}

} // verus!
