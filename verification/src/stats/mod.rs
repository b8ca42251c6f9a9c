//! Verifier cost estimation for Halo2 circuits.

pub mod counts;
pub mod rotation_set;
pub mod scalar_ops;
pub mod expression;
pub mod statistics;
pub mod lookup_table;
pub mod column;
pub mod primitives;
pub mod chips;
pub mod flatten;
pub mod merge;
pub mod arguments;
pub mod lookup;
pub mod pcs;
pub mod estimate;
pub mod point_sets;
pub mod config;
pub mod circuit;
pub mod profile;
pub mod summary;
