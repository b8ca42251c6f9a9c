use vstd::prelude::*;

verus! {

/// Mathematical model of operation counts, in unbounded integers: scalar
/// operations, point operations, and the number of bytes absorbed by the
/// transcript.
pub struct OpCounts {
    pub neg: int,
    pub add: int,
    pub sub: int,
    pub mul: int,
    pub inv: int,
    pub pow: int,
    pub to_bytes: int,
    pub from_bytes: int,
    pub from_int: int,
    pub add_point: int,
    pub mul_point: int,
    pub from_bytes_point: int,
    pub decompress: int,
    pub compress: int,
    pub transcript: int,
}

impl OpCounts {
    pub open spec fn zero() -> Self {
        OpCounts {
            neg: 0,
            add: 0,
            sub: 0,
            mul: 0,
            inv: 0,
            pow: 0,
            to_bytes: 0,
            from_bytes: 0,
            from_int: 0,
            add_point: 0,
            mul_point: 0,
            from_bytes_point: 0,
            decompress: 0,
            compress: 0,
            transcript: 0,
        }
    }

    /// Field-wise sum.
    pub open spec fn plus(self, o: Self) -> Self {
        OpCounts {
            neg: self.neg + o.neg,
            add: self.add + o.add,
            sub: self.sub + o.sub,
            mul: self.mul + o.mul,
            inv: self.inv + o.inv,
            pow: self.pow + o.pow,
            to_bytes: self.to_bytes + o.to_bytes,
            from_bytes: self.from_bytes + o.from_bytes,
            from_int: self.from_int + o.from_int,
            add_point: self.add_point + o.add_point,
            mul_point: self.mul_point + o.mul_point,
            from_bytes_point: self.from_bytes_point + o.from_bytes_point,
            decompress: self.decompress + o.decompress,
            compress: self.compress + o.compress,
            transcript: self.transcript + o.transcript,
        }
    }

    /// No count is negative.
    pub open spec fn nonneg(self) -> bool {
        &&& self.neg >= 0
        &&& self.add >= 0
        &&& self.sub >= 0
        &&& self.mul >= 0
        &&& self.inv >= 0
        &&& self.pow >= 0
        &&& self.to_bytes >= 0
        &&& self.from_bytes >= 0
        &&& self.from_int >= 0
        &&& self.add_point >= 0
        &&& self.mul_point >= 0
        &&& self.from_bytes_point >= 0
        &&& self.decompress >= 0
        &&& self.compress >= 0
        &&& self.transcript >= 0
    }

    /// Every count fits in a `usize`.
    pub open spec fn fits(self) -> bool {
        &&& self.neg <= usize::MAX
        &&& self.add <= usize::MAX
        &&& self.sub <= usize::MAX
        &&& self.mul <= usize::MAX
        &&& self.inv <= usize::MAX
        &&& self.pow <= usize::MAX
        &&& self.to_bytes <= usize::MAX
        &&& self.from_bytes <= usize::MAX
        &&& self.from_int <= usize::MAX
        &&& self.add_point <= usize::MAX
        &&& self.mul_point <= usize::MAX
        &&& self.from_bytes_point <= usize::MAX
        &&& self.decompress <= usize::MAX
        &&& self.compress <= usize::MAX
        &&& self.transcript <= usize::MAX
    }

    /// Every count of `self` is at most the matching count of `o`.
    pub open spec fn le(self, o: Self) -> bool {
        &&& self.neg <= o.neg
        &&& self.add <= o.add
        &&& self.sub <= o.sub
        &&& self.mul <= o.mul
        &&& self.inv <= o.inv
        &&& self.pow <= o.pow
        &&& self.to_bytes <= o.to_bytes
        &&& self.from_bytes <= o.from_bytes
        &&& self.from_int <= o.from_int
        &&& self.add_point <= o.add_point
        &&& self.mul_point <= o.mul_point
        &&& self.from_bytes_point <= o.from_bytes_point
        &&& self.decompress <= o.decompress
        &&& self.compress <= o.compress
        &&& self.transcript <= o.transcript
    }

    // Single-operation deltas.
    pub open spec fn neg1() -> Self {
        OpCounts { neg: 1, ..Self::zero() }
    }

    pub open spec fn add1() -> Self {
        OpCounts { add: 1, ..Self::zero() }
    }

    pub open spec fn sub1() -> Self {
        OpCounts { sub: 1, ..Self::zero() }
    }

    pub open spec fn mul1() -> Self {
        OpCounts { mul: 1, ..Self::zero() }
    }

    pub open spec fn inv1() -> Self {
        OpCounts { inv: 1, ..Self::zero() }
    }

    pub open spec fn pow1() -> Self {
        OpCounts { pow: 1, ..Self::zero() }
    }

    pub open spec fn from_int1() -> Self {
        OpCounts { from_int: 1, ..Self::zero() }
    }

    pub open spec fn add_point1() -> Self {
        OpCounts { add_point: 1, ..Self::zero() }
    }

    pub open spec fn mul_point1() -> Self {
        OpCounts { mul_point: 1, ..Self::zero() }
    }

    pub open spec fn decompress1() -> Self {
        OpCounts { decompress: 1, ..Self::zero() }
    }

    pub open spec fn compress1() -> Self {
        OpCounts { compress: 1, ..Self::zero() }
    }

    /// Reading a scalar from the proof: 32 transcript bytes, one conversion from bytes.
    pub open spec fn read_scalar1() -> Self {
        OpCounts { transcript: 32, from_bytes: 1, ..Self::zero() }
    }

    /// Absorbing a scalar into the transcript: 32 bytes, one conversion to bytes.
    pub open spec fn common_scalar1() -> Self {
        OpCounts { transcript: 32, to_bytes: 1, ..Self::zero() }
    }

    /// Reading a point from the proof: 48 bytes, one conversion, one decompression.
    pub open spec fn read_point1() -> Self {
        OpCounts { transcript: 48, from_bytes_point: 1, decompress: 1, ..Self::zero() }
    }

    /// Absorbing a G1 point into the transcript: 48 bytes.
    pub open spec fn common_g1_1() -> Self {
        OpCounts { transcript: 48, ..Self::zero() }
    }

    /// Squeezing a challenge: two conversions from bytes (the hash itself is
    /// recorded apart).
    pub open spec fn squeeze1() -> Self {
        OpCounts { from_bytes: 2, ..Self::zero() }
    }

    /// Rotating omega: one power and one multiplication.
    pub open spec fn rotate1() -> Self {
        OpCounts { pow: 1, mul: 1, ..Self::zero() }
    }
}

} // verus!
