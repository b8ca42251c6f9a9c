//! Circuit-level description for circuits that chips do not fully describe.

use vstd::prelude::*;

verus! {

/// Extra columns, lookups and degree of a circuit beyond its chips.
///
/// `nb_selectors` is kept apart from `nb_fixed` because selectors are turned
/// into fixed columns and so count in the verification key.
#[derive(Clone, Copy, Debug)]
pub struct CircuitConfig {
    pub nb_selectors: usize,
    pub nb_advice: usize,
    pub nb_fixed: usize,
    pub nb_evaluations: usize,
    pub nb_lookups: usize,
    pub degree: usize,
    pub nr_pow2range_cols: Option<usize>,
}

impl CircuitConfig {
    /// A configuration with the given counts. Without an explicit number of
    /// evaluations, it is `nb_advice`: every extra advice column is queried
    /// only at the current row.
    pub fn new(
        nb_selectors: usize,
        nb_advice: usize,
        nb_fixed: usize,
        nb_evaluations: Option<usize>,
        nb_lookups: usize,
        degree: usize,
        nr_pow2range_cols: Option<usize>,
    ) -> (c: Self)
        ensures
            c.nb_selectors == nb_selectors,
            c.nb_advice == nb_advice,
            c.nb_fixed == nb_fixed,
            c.nb_evaluations == match nb_evaluations {
                Some(n) => n as int,
                None => nb_advice as int,
            },
            c.nb_lookups == nb_lookups,
            c.degree == degree,
            c.nr_pow2range_cols == nr_pow2range_cols,
    {
        let nb_evaluations = match nb_evaluations {
            Some(n) => n,
            None => nb_advice,
        };
        CircuitConfig {
            nb_selectors,
            nb_advice,
            nb_fixed,
            nb_evaluations,
            nb_lookups,
            degree,
            nr_pow2range_cols,
        }
    }

    /// Everything zero, and no number of pow2range columns.
    pub open spec fn spec_default() -> Self {
        CircuitConfig {
            nb_selectors: 0,
            nb_advice: 0,
            nb_fixed: 0,
            nb_evaluations: 0,
            nb_lookups: 0,
            degree: 0,
            nr_pow2range_cols: None,
        }
    }
}

impl Default for CircuitConfig {
    fn default() -> (c: Self)
        ensures
            c == Self::spec_default(),
    {
        CircuitConfig {
            nb_selectors: 0,
            nb_advice: 0,
            nb_fixed: 0,
            nb_evaluations: 0,
            nb_lookups: 0,
            degree: 0,
            nr_pow2range_cols: None,
        }
    }
}

} // verus!
