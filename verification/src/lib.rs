//! Cost estimation and verifier-generation support for Halo2 circuits
//! verified on Cardano (Plinth and Aiken back ends).

pub mod stats;
pub mod cli;
pub mod extraction;
pub mod hex_bytes;
pub mod axiom_scalar_mul;
pub mod axiom_shplonk;
pub mod template;
