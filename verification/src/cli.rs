//! The estimator's command-line options, as plain values.

use vstd::prelude::*;

use crate::stats::chips::SupportedChips;
use crate::stats::config::CircuitConfig;

verus! {

/// Options of the cost estimator: proof inputs, chips, and the extra
/// circuit configuration.
pub struct EstimateCliArguments {
    pub nb_public_inputs: usize,
    pub committed_instances: bool,
    pub native: bool,
    pub poseidon: bool,
    pub jubjub: bool,
    pub bls12_381: bool,
    pub secp256k1: bool,
    pub hash_to_curve: bool,
    pub nb_advice: usize,
    pub nb_fixed: usize,
    pub nb_evaluations: usize,
    pub nb_selectors: usize,
    pub nb_lookups: usize,
    pub degree: usize,
    pub nr_pow2: Option<usize>,
}

/// A chip that was asked for but that the estimator does not describe.
#[derive(Clone, Copy, Debug, PartialEq, Eq, Structural)]
pub enum UnsupportedChip {
    WeierstrassBls12381,
    WeierstrassSecp256k1,
}

/// The chips the options ask for, in the order native, jubjub,
/// hash-to-curve, poseidon.
pub open spec fn spec_chips(a: &EstimateCliArguments) -> Seq<SupportedChips> {
    (if a.native { seq![SupportedChips::Native] } else { Seq::empty() }) + (if a.jubjub {
        seq![SupportedChips::EdwardsJubjub]
    } else {
        Seq::empty()
    }) + (if a.hash_to_curve {
        seq![SupportedChips::HashToCurve]
    } else {
        Seq::empty()
    }) + (if a.poseidon {
        seq![SupportedChips::Poseidon]
    } else {
        Seq::empty()
    })
}

impl EstimateCliArguments {
    /// The chips asked for. The BLS12-381 and secp256k1 curve chips have no
    /// description: asking for either is an error, BLS12-381 reported first.
    pub fn chips(&self) -> (r: Result<Vec<SupportedChips>, UnsupportedChip>)
        ensures
            self.bls12_381 ==> r == Err::<Vec<SupportedChips>, UnsupportedChip>(UnsupportedChip::WeierstrassBls12381),
            !self.bls12_381 && self.secp256k1 ==> r == Err::<Vec<SupportedChips>, UnsupportedChip>(
                UnsupportedChip::WeierstrassSecp256k1,
            ),
            !self.bls12_381 && !self.secp256k1 ==> r is Ok && r->Ok_0@ == spec_chips(self),
    {
        if self.bls12_381 {
            return Err(UnsupportedChip::WeierstrassBls12381);
        }
        if self.secp256k1 {
            return Err(UnsupportedChip::WeierstrassSecp256k1);
        }
        let mut chips: Vec<SupportedChips> = Vec::new();
        if self.native {
            chips.push(SupportedChips::Native);
        }
        if self.jubjub {
            chips.push(SupportedChips::EdwardsJubjub);
        }
        if self.hash_to_curve {
            chips.push(SupportedChips::HashToCurve);
        }
        if self.poseidon {
            chips.push(SupportedChips::Poseidon);
        }
        assert(chips@ =~= spec_chips(self));
        Ok(chips)
    }

    /// The extra circuit configuration the options describe.
    pub fn config(&self) -> (c: CircuitConfig)
        ensures
            c.nb_advice == self.nb_advice,
            c.nb_evaluations == self.nb_evaluations,
            c.nb_fixed == self.nb_fixed,
            c.nb_selectors == self.nb_selectors,
            c.nb_lookups == self.nb_lookups,
            c.degree == self.degree,
            c.nr_pow2range_cols == self.nr_pow2,
    {
        CircuitConfig {
            nb_advice: self.nb_advice,
            nb_evaluations: self.nb_evaluations,
            nb_fixed: self.nb_fixed,
            nb_selectors: self.nb_selectors,
            nb_lookups: self.nb_lookups,
            degree: self.degree,
            nr_pow2range_cols: self.nr_pow2,
        }
    }
}

} // verus!
